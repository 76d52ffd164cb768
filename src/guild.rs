use vstd::prelude::*;
use crate::keys::Key;
use crate::model::{
    GuildSets, GuildView, MemberView, RoleView, decode_guild, decode_member, decode_role, parsed_ids,
};
use crate::number::{decimal, lemma_parse_decimal, to_decimal};
use crate::record::{flag_text, opt_text};
use crate::store::{
    Command, Op, StoreView, Stored, hash_slot, lemma_run_concat, lemma_run_concat_untouched,
    lemma_run_push, lemma_single_to_set, lemma_with_fields_push, members, members_slot, op_key, ops,
    run, text_pairs, texts, untouched, with_fields,
};
use crate::voice::{
    VoiceUpdate, flag_string, lemma_flag, one, push_command, push_field, voice_fields,
    voice_hash_fields,
};

verus! {

/// A role as a guild snapshot gives it.
#[derive(Clone, Debug)]
pub struct RoleSnapshot {
    pub id: u64,
    pub name: String,
    pub colour: u64,
    pub permissions: u64,
}

/// A member as a guild snapshot gives it.
#[derive(Clone, Debug)]
pub struct MemberSnapshot {
    pub user_id: u64,
    pub deaf: bool,
    pub mute: bool,
    pub nick: Option<String>,
    pub joined_at: Option<String>,
    pub roles: Vec<u64>,
}

/// The authoritative state of a whole guild at one point in time.
#[derive(Clone, Debug)]
pub struct GuildSnapshot {
    pub id: u64,
    pub name: String,
    pub owner_id: u64,
    pub region: String,
    pub afk_channel_id: Option<u64>,
    pub channels: Vec<u64>,
    pub features: Vec<String>,
    pub members: Vec<MemberSnapshot>,
    pub roles: Vec<RoleSnapshot>,
    pub voice_states: Vec<VoiceUpdate>,
}

/// The decimal text of each id.
pub open spec fn id_texts(ids: Seq<u64>) -> Seq<Seq<char>> {
    ids.map_values(|i: u64| decimal(i as nat))
}

/// The writes that replace the set at `k` by the members `items`.
pub open spec fn replace_ops(k: Key, items: Seq<Seq<char>>) -> Seq<Op> {
    if items.len() == 0 {
        seq![Op::Del(k)]
    } else {
        seq![Op::Del(k), Op::SAdd(k, items)]
    }
}

/// The fields of a guild's own hash.
pub open spec fn guild_fields(g: GuildSnapshot) -> Seq<(Seq<char>, Seq<char>)> {
    let base = seq![
        ("name"@, g.name@),
        ("owner_id"@, decimal(g.owner_id as nat)),
        ("region"@, g.region@),
    ];
    match g.afk_channel_id {
        Some(a) => base.push(("afk_channel_id"@, decimal(a as nat))),
        None => base,
    }
}

/// The writes of a guild's own hash: an absent AFK channel is deleted.
pub open spec fn guild_hash_ops(g: GuildSnapshot) -> Seq<Op> {
    let set = seq![Op::HSet(Key::Guild(g.id), guild_fields(g))];
    match g.afk_channel_id {
        Some(_) => set,
        None => set.push(Op::HDel(Key::Guild(g.id), seq!["afk_channel_id"@])),
    }
}

/// The fields of a member's hash.
pub open spec fn member_fields(m: MemberSnapshot) -> Seq<(Seq<char>, Seq<char>)> {
    let base = seq![
        ("deaf"@, flag_text(m.deaf)),
        ("mute"@, flag_text(m.mute)),
        ("user_id"@, decimal(m.user_id as nat)),
    ];
    let with_joined = match m.joined_at {
        Some(j) => base.push(("joined_at"@, j@)),
        None => base,
    };
    match m.nick {
        Some(n) => with_joined.push(("nick"@, n@)),
        None => with_joined,
    }
}

/// The names of the optional member fields that a member lacks.
pub open spec fn member_absent(m: MemberSnapshot) -> Seq<Seq<char>> {
    let a = if m.joined_at is None {
        seq!["joined_at"@]
    } else {
        Seq::empty()
    };
    if m.nick is None {
        a.push("nick"@)
    } else {
        a
    }
}

/// The writes of one member of guild `g`: its absent optional fields are
/// deleted, its hash written, its role set replaced.
pub open spec fn member_ops(g: u64, m: MemberSnapshot) -> Seq<Op> {
    let key = Key::Member(g, m.user_id);
    let clear = if member_absent(m).len() > 0 {
        seq![Op::HDel(key, member_absent(m))]
    } else {
        Seq::empty()
    };
    clear.push(Op::HSet(key, member_fields(m))) + replace_ops(
        Key::MemberRoles(g, m.user_id),
        id_texts(m.roles@),
    )
}

/// The writes of the members `ms` of guild `g`, one member after another.
pub open spec fn members_ops(g: u64, ms: Seq<MemberSnapshot>) -> Seq<Op>
    decreases ms.len(),
{
    if ms.len() == 0 {
        Seq::empty()
    } else {
        members_ops(g, ms.drop_last()) + member_ops(g, ms.last())
    }
}

/// The write of one role of guild `g`.
pub open spec fn role_op(g: u64, r: RoleSnapshot) -> Op {
    Op::HSet(
        Key::Role(g, r.id),
        seq![
            ("colour"@, decimal(r.colour as nat)),
            ("name"@, r.name@),
            ("permissions"@, decimal(r.permissions as nat)),
        ],
    )
}

/// The writes of the roles `rs` of guild `g`, in order.
pub open spec fn roles_ops(g: u64, rs: Seq<RoleSnapshot>) -> Seq<Op>
    decreases rs.len(),
{
    if rs.len() == 0 {
        Seq::empty()
    } else {
        roles_ops(g, rs.drop_last()).push(role_op(g, rs.last()))
    }
}

/// The users of the voice states `vs` that are in a channel, in order.
pub open spec fn voice_users(vs: Seq<VoiceUpdate>) -> Seq<u64>
    decreases vs.len(),
{
    if vs.len() == 0 {
        Seq::empty()
    } else if vs.last().channel_id is Some {
        voice_users(vs.drop_last()).push(vs.last().user_id)
    } else {
        voice_users(vs.drop_last())
    }
}

/// The users of the voice states `vs` that are in channel `c`, in order.
pub open spec fn users_in(vs: Seq<VoiceUpdate>, c: u64) -> Seq<u64>
    decreases vs.len(),
{
    if vs.len() == 0 {
        Seq::empty()
    } else if vs.last().channel_id == Some(c) {
        users_in(vs.drop_last(), c).push(vs.last().user_id)
    } else {
        users_in(vs.drop_last(), c)
    }
}

/// The channels that the voice states `vs` name, each once, in the order
/// in which they first appear.
pub open spec fn voice_channels(vs: Seq<VoiceUpdate>) -> Seq<u64>
    decreases vs.len(),
{
    if vs.len() == 0 {
        Seq::empty()
    } else {
        let prev = voice_channels(vs.drop_last());
        match vs.last().channel_id {
            Some(c) => if prev.contains(c) {
                prev
            } else {
                prev.push(c)
            },
            None => prev,
        }
    }
}

/// The writes that replace the voice set of each channel in `cs` by the
/// users of `vs` in that channel.
pub open spec fn channel_sets_ops(vs: Seq<VoiceUpdate>, cs: Seq<u64>) -> Seq<Op>
    decreases cs.len(),
{
    if cs.len() == 0 {
        Seq::empty()
    } else {
        channel_sets_ops(vs, cs.drop_last()) + replace_ops(
            Key::ChannelVoiceStates(cs.last()),
            id_texts(users_in(vs, cs.last())),
        )
    }
}

/// The writes of one voice state of a snapshot of guild `g`: its hash, as a
/// transition writes it, where it names a channel; its deletion otherwise.
pub open spec fn voice_hash_ops(g: u64, u: VoiceUpdate) -> Seq<Op> {
    let key = Key::UserVoiceState(g, u.user_id);
    match u.channel_id {
        Some(c) => {
            let clear = if u.token is None {
                seq![Op::HDel(key, seq!["token"@])]
            } else {
                Seq::empty()
            };
            clear.push(Op::HSet(key, voice_fields(c, u)))
        },
        None => seq![Op::Del(key)],
    }
}

/// The writes of the voice states `vs` of guild `g`, in order.
pub open spec fn voice_hashes_ops(g: u64, vs: Seq<VoiceUpdate>) -> Seq<Op>
    decreases vs.len(),
{
    if vs.len() == 0 {
        Seq::empty()
    } else {
        voice_hashes_ops(g, vs.drop_last()) + voice_hash_ops(g, vs.last())
    }
}

/// The writes of a whole-guild upsert, in order: the guild's own hash; its
/// channel, feature and member sets replaced; each member; its role set
/// replaced; each role; its voice set replaced; the voice set of each
/// channel in voice replaced in one pass; each voice state's hash.
pub open spec fn guild_ops(g: GuildSnapshot) -> Seq<Op> {
    let vs = g.voice_states@;
    guild_hash_ops(g) + replace_ops(Key::GuildChannels(g.id), id_texts(g.channels@)) + replace_ops(
        Key::GuildFeatures(g.id),
        texts(g.features@),
    ) + replace_ops(Key::GuildMembers(g.id), id_texts(g.members@.map_values(|m: MemberSnapshot| m.user_id)))
        + members_ops(g.id, g.members@) + replace_ops(
        Key::GuildRoles(g.id),
        id_texts(g.roles@.map_values(|r: RoleSnapshot| r.id)),
    ) + roles_ops(g.id, g.roles@) + replace_ops(Key::GuildVoiceStates(g.id), id_texts(voice_users(vs)))
        + channel_sets_ops(vs, voice_channels(vs)) + voice_hashes_ops(g.id, vs)
}

fn append_commands(plan: &mut Vec<Command>, more: Vec<Command>)
    ensures
        ops(final(plan)@) == ops(old(plan)@) + ops(more@),
{
    let ghost m = more@;
    let mut more = more;
    plan.append(&mut more);
    assert(ops(final(plan)@) =~= ops(old(plan)@) + ops(m));
}

fn id_strings(ids: &Vec<u64>) -> (r: Vec<String>)
    ensures
        texts(r@) == id_texts(ids@),
{
    let mut v: Vec<String> = Vec::new();
    let mut i: usize = 0;
    while i < ids.len()
        invariant
            i <= ids@.len(),
            texts(v@) == id_texts(ids@.subrange(0, i as int)),
        decreases ids@.len() - i,
    {
        let ghost prev = v@;
        v.push(to_decimal(ids[i]));
        assert(ids@.subrange(0, i + 1) =~= ids@.subrange(0, i as int).push(ids@[i as int]));
        assert(texts(v@) =~= texts(prev).push(decimal(ids@[i as int] as nat)));
        assert(id_texts(ids@.subrange(0, i + 1)) =~= id_texts(ids@.subrange(0, i as int)).push(
            decimal(ids@[i as int] as nat),
        ));
        i = i + 1;
    }
    assert(ids@.subrange(0, ids@.len() as int) =~= ids@);
    v
}

fn replace_set(k: Key, items: Vec<String>) -> (r: Vec<Command>)
    ensures
        ops(r@) == replace_ops(k, texts(items@)),
{
    let mut plan: Vec<Command> = Vec::new();
    assert(ops(plan@) =~= Seq::empty());
    push_command(&mut plan, Command::Del(k));
    if items.len() > 0 {
        push_command(&mut plan, Command::SAdd(k, items));
    }
    assert(ops(plan@) =~= replace_ops(k, texts(items@)));
    plan
}

fn guild_hash_commands(g: &GuildSnapshot) -> (r: Vec<Command>)
    ensures
        ops(r@) == guild_hash_ops(*g),
{
    let mut fields: Vec<(String, String)> = Vec::new();
    assert(text_pairs(fields@) =~= Seq::empty());
    push_field(&mut fields, "name", g.name.clone());
    push_field(&mut fields, "owner_id", to_decimal(g.owner_id));
    push_field(&mut fields, "region", g.region.clone());
    match g.afk_channel_id {
        Some(a) => push_field(&mut fields, "afk_channel_id", to_decimal(a)),
        None => {},
    }
    assert(text_pairs(fields@) =~= guild_fields(*g));
    let mut plan: Vec<Command> = Vec::new();
    assert(ops(plan@) =~= Seq::empty());
    push_command(&mut plan, Command::HSet(Key::Guild(g.id), fields));
    if g.afk_channel_id.is_none() {
        push_command(&mut plan, Command::HDel(Key::Guild(g.id), one(String::from_str("afk_channel_id"))));
    }
    assert(ops(plan@) =~= guild_hash_ops(*g));
    plan
}

fn member_commands(g: u64, m: &MemberSnapshot) -> (r: Vec<Command>)
    ensures
        ops(r@) == member_ops(g, *m),
{
    let key = Key::Member(g, m.user_id);
    let mut absent: Vec<String> = Vec::new();
    if m.joined_at.is_none() {
        absent.push(String::from_str("joined_at"));
    }
    if m.nick.is_none() {
        absent.push(String::from_str("nick"));
    }
    assert(texts(absent@) =~= member_absent(*m));
    let mut fields: Vec<(String, String)> = Vec::new();
    assert(text_pairs(fields@) =~= Seq::empty());
    push_field(&mut fields, "deaf", flag_string(m.deaf));
    push_field(&mut fields, "mute", flag_string(m.mute));
    push_field(&mut fields, "user_id", to_decimal(m.user_id));
    match &m.joined_at {
        Some(j) => push_field(&mut fields, "joined_at", j.clone()),
        None => {},
    }
    match &m.nick {
        Some(n) => push_field(&mut fields, "nick", n.clone()),
        None => {},
    }
    assert(text_pairs(fields@) =~= member_fields(*m));
    let mut plan: Vec<Command> = Vec::new();
    assert(ops(plan@) =~= Seq::empty());
    if absent.len() > 0 {
        push_command(&mut plan, Command::HDel(key, absent));
    }
    push_command(&mut plan, Command::HSet(key, fields));
    append_commands(&mut plan, replace_set(Key::MemberRoles(g, m.user_id), id_strings(&m.roles)));
    plan
}

fn members_commands(g: u64, ms: &Vec<MemberSnapshot>) -> (r: Vec<Command>)
    ensures
        ops(r@) == members_ops(g, ms@),
{
    let mut plan: Vec<Command> = Vec::new();
    let mut i: usize = 0;
    assert(ops(plan@) =~= members_ops(g, ms@.subrange(0, 0)));
    while i < ms.len()
        invariant
            i <= ms@.len(),
            ops(plan@) == members_ops(g, ms@.subrange(0, i as int)),
        decreases ms@.len() - i,
    {
        append_commands(&mut plan, member_commands(g, &ms[i]));
        assert(ms@.subrange(0, i + 1).drop_last() =~= ms@.subrange(0, i as int));
        i = i + 1;
    }
    assert(ms@.subrange(0, ms@.len() as int) =~= ms@);
    plan
}

fn roles_commands(g: u64, rs: &Vec<RoleSnapshot>) -> (r: Vec<Command>)
    ensures
        ops(r@) == roles_ops(g, rs@),
{
    let mut plan: Vec<Command> = Vec::new();
    let mut i: usize = 0;
    assert(ops(plan@) =~= roles_ops(g, rs@.subrange(0, 0)));
    while i < rs.len()
        invariant
            i <= rs@.len(),
            ops(plan@) == roles_ops(g, rs@.subrange(0, i as int)),
        decreases rs@.len() - i,
    {
        let r = &rs[i];
        let mut fields: Vec<(String, String)> = Vec::new();
        assert(text_pairs(fields@) =~= Seq::empty());
        push_field(&mut fields, "colour", to_decimal(r.colour));
        push_field(&mut fields, "name", r.name.clone());
        push_field(&mut fields, "permissions", to_decimal(r.permissions));
        push_command(&mut plan, Command::HSet(Key::Role(g, r.id), fields));
        assert(text_pairs(fields@) =~= seq![
            ("colour"@, decimal(r.colour as nat)),
            ("name"@, r.name@),
            ("permissions"@, decimal(r.permissions as nat)),
        ]);
        assert(rs@.subrange(0, i + 1).drop_last() =~= rs@.subrange(0, i as int));
        i = i + 1;
    }
    assert(rs@.subrange(0, rs@.len() as int) =~= rs@);
    plan
}

fn member_ids(ms: &Vec<MemberSnapshot>) -> (r: Vec<u64>)
    ensures
        r@ == ms@.map_values(|m: MemberSnapshot| m.user_id),
{
    let mut v: Vec<u64> = Vec::new();
    let mut i: usize = 0;
    while i < ms.len()
        invariant
            i <= ms@.len(),
            v@ == ms@.subrange(0, i as int).map_values(|m: MemberSnapshot| m.user_id),
        decreases ms@.len() - i,
    {
        v.push(ms[i].user_id);
        i = i + 1;
        assert(v@ =~= ms@.subrange(0, i as int).map_values(|m: MemberSnapshot| m.user_id));
    }
    assert(ms@.subrange(0, ms@.len() as int) =~= ms@);
    v
}

fn role_ids(rs: &Vec<RoleSnapshot>) -> (r: Vec<u64>)
    ensures
        r@ == rs@.map_values(|r: RoleSnapshot| r.id),
{
    let mut v: Vec<u64> = Vec::new();
    let mut i: usize = 0;
    while i < rs.len()
        invariant
            i <= rs@.len(),
            v@ == rs@.subrange(0, i as int).map_values(|r: RoleSnapshot| r.id),
        decreases rs@.len() - i,
    {
        v.push(rs[i].id);
        i = i + 1;
        assert(v@ =~= rs@.subrange(0, i as int).map_values(|r: RoleSnapshot| r.id));
    }
    assert(rs@.subrange(0, rs@.len() as int) =~= rs@);
    v
}

fn voice_user_ids(vs: &Vec<VoiceUpdate>) -> (r: Vec<u64>)
    ensures
        r@ == voice_users(vs@),
{
    let mut v: Vec<u64> = Vec::new();
    let mut i: usize = 0;
    while i < vs.len()
        invariant
            i <= vs@.len(),
            v@ == voice_users(vs@.subrange(0, i as int)),
        decreases vs@.len() - i,
    {
        assert(vs@.subrange(0, i + 1).drop_last() =~= vs@.subrange(0, i as int));
        if vs[i].channel_id.is_some() {
            v.push(vs[i].user_id);
        }
        i = i + 1;
    }
    assert(vs@.subrange(0, vs@.len() as int) =~= vs@);
    v
}

fn users_in_channel(vs: &Vec<VoiceUpdate>, c: u64) -> (r: Vec<u64>)
    ensures
        r@ == users_in(vs@, c),
{
    let mut v: Vec<u64> = Vec::new();
    let mut i: usize = 0;
    while i < vs.len()
        invariant
            i <= vs@.len(),
            v@ == users_in(vs@.subrange(0, i as int), c),
        decreases vs@.len() - i,
    {
        assert(vs@.subrange(0, i + 1).drop_last() =~= vs@.subrange(0, i as int));
        match vs[i].channel_id {
            Some(x) => {
                if x == c {
                    v.push(vs[i].user_id);
                }
            },
            None => {},
        }
        i = i + 1;
    }
    assert(vs@.subrange(0, vs@.len() as int) =~= vs@);
    v
}

fn contains_id(v: &Vec<u64>, x: u64) -> (r: bool)
    ensures
        r == v@.contains(x),
{
    let mut i: usize = 0;
    while i < v.len()
        invariant
            i <= v@.len(),
            forall|j: int| 0 <= j < i ==> v@[j] != x,
        decreases v@.len() - i,
    {
        if v[i] == x {
            return true;
        }
        i = i + 1;
    }
    false
}

fn channels_in_voice(vs: &Vec<VoiceUpdate>) -> (r: Vec<u64>)
    ensures
        r@ == voice_channels(vs@),
{
    let mut v: Vec<u64> = Vec::new();
    let mut i: usize = 0;
    while i < vs.len()
        invariant
            i <= vs@.len(),
            v@ == voice_channels(vs@.subrange(0, i as int)),
        decreases vs@.len() - i,
    {
        assert(vs@.subrange(0, i + 1).drop_last() =~= vs@.subrange(0, i as int));
        match vs[i].channel_id {
            Some(c) => {
                if !contains_id(&v, c) {
                    v.push(c);
                }
            },
            None => {},
        }
        i = i + 1;
    }
    assert(vs@.subrange(0, vs@.len() as int) =~= vs@);
    v
}

fn channel_sets_commands(vs: &Vec<VoiceUpdate>, cs: &Vec<u64>) -> (r: Vec<Command>)
    ensures
        ops(r@) == channel_sets_ops(vs@, cs@),
{
    let mut plan: Vec<Command> = Vec::new();
    let mut i: usize = 0;
    assert(ops(plan@) =~= channel_sets_ops(vs@, cs@.subrange(0, 0)));
    while i < cs.len()
        invariant
            i <= cs@.len(),
            ops(plan@) == channel_sets_ops(vs@, cs@.subrange(0, i as int)),
        decreases cs@.len() - i,
    {
        let c = cs[i];
        let users = users_in_channel(vs, c);
        append_commands(&mut plan, replace_set(Key::ChannelVoiceStates(c), id_strings(&users)));
        assert(cs@.subrange(0, i + 1).drop_last() =~= cs@.subrange(0, i as int));
        i = i + 1;
    }
    assert(cs@.subrange(0, cs@.len() as int) =~= cs@);
    plan
}

fn voice_hashes_commands(g: u64, vs: &Vec<VoiceUpdate>) -> (r: Vec<Command>)
    ensures
        ops(r@) == voice_hashes_ops(g, vs@),
{
    let mut plan: Vec<Command> = Vec::new();
    let mut i: usize = 0;
    assert(ops(plan@) =~= voice_hashes_ops(g, vs@.subrange(0, 0)));
    while i < vs.len()
        invariant
            i <= vs@.len(),
            ops(plan@) == voice_hashes_ops(g, vs@.subrange(0, i as int)),
        decreases vs@.len() - i,
    {
        let u = &vs[i];
        let key = Key::UserVoiceState(g, u.user_id);
        let mut one_state: Vec<Command> = Vec::new();
        assert(ops(one_state@) =~= Seq::empty());
        match u.channel_id {
            Some(c) => {
                if u.token.is_none() {
                    push_command(&mut one_state, Command::HDel(key, one(String::from_str("token"))));
                }
                push_command(&mut one_state, Command::HSet(key, voice_hash_fields(c, u)));
            },
            None => {
                push_command(&mut one_state, Command::Del(key));
            },
        }
        assert(ops(one_state@) =~= voice_hash_ops(g, *u));
        append_commands(&mut plan, one_state);
        assert(vs@.subrange(0, i + 1).drop_last() =~= vs@.subrange(0, i as int));
        i = i + 1;
    }
    assert(vs@.subrange(0, vs@.len() as int) =~= vs@);
    plan
}

/// Plans a whole-guild upsert from a snapshot. Every membership set of the
/// guild, and the voice set of each channel in voice, is replaced, not
/// merged. The writes are ordered but not atomic: a reader may see some of
/// them before the others.
pub fn upsert_guild(guild: &GuildSnapshot) -> (r: Vec<Command>)
    ensures
        ops(r@) == guild_ops(*guild),
{
    let id = guild.id;
    let vs = &guild.voice_states;
    let mut plan: Vec<Command> = Vec::new();
    append_commands(&mut plan, guild_hash_commands(guild));
    assert(ops(plan@) =~= guild_hash_ops(*guild));
    append_commands(&mut plan, replace_set(Key::GuildChannels(id), id_strings(&guild.channels)));
    append_commands(&mut plan, replace_set(Key::GuildFeatures(id), guild.features.clone()));
    append_commands(
        &mut plan,
        replace_set(Key::GuildMembers(id), id_strings(&member_ids(&guild.members))),
    );
    append_commands(&mut plan, members_commands(id, &guild.members));
    append_commands(&mut plan, replace_set(Key::GuildRoles(id), id_strings(&role_ids(&guild.roles))));
    append_commands(&mut plan, roles_commands(id, &guild.roles));
    append_commands(&mut plan, replace_set(Key::GuildVoiceStates(id), id_strings(&voice_user_ids(vs))));
    let channels = channels_in_voice(vs);
    append_commands(&mut plan, channel_sets_commands(vs, &channels));
    append_commands(&mut plan, voice_hashes_commands(id, vs));
    plan
}

proof fn lemma_guild_field_names()
    ensures
        "name"@ != "owner_id"@,
        "name"@ != "region"@,
        "name"@ != "afk_channel_id"@,
        "owner_id"@ != "region"@,
        "owner_id"@ != "afk_channel_id"@,
        "region"@ != "afk_channel_id"@,
{
    reveal_strlit("name");
    reveal_strlit("owner_id");
    reveal_strlit("region");
    reveal_strlit("afk_channel_id");
    assert("name"@ != "owner_id"@) by {
        assert("name"@.len() != "owner_id"@.len());
    }
    assert("name"@ != "region"@) by {
        assert("name"@.len() != "region"@.len());
    }
    assert("name"@ != "afk_channel_id"@) by {
        assert("name"@.len() != "afk_channel_id"@.len());
    }
    assert("owner_id"@ != "region"@) by {
        assert("owner_id"@.len() != "region"@.len());
    }
    assert("owner_id"@ != "afk_channel_id"@) by {
        assert("owner_id"@.len() != "afk_channel_id"@.len());
    }
    assert("region"@ != "afk_channel_id"@) by {
        assert("region"@.len() != "afk_channel_id"@.len());
    }
}

proof fn lemma_member_field_names()
    ensures
        "deaf"@ != "mute"@,
        "deaf"@ != "user_id"@,
        "deaf"@ != "joined_at"@,
        "deaf"@ != "nick"@,
        "mute"@ != "user_id"@,
        "mute"@ != "joined_at"@,
        "mute"@ != "nick"@,
        "user_id"@ != "joined_at"@,
        "user_id"@ != "nick"@,
        "joined_at"@ != "nick"@,
{
    reveal_strlit("deaf");
    reveal_strlit("mute");
    reveal_strlit("user_id");
    reveal_strlit("joined_at");
    reveal_strlit("nick");
    assert("deaf"@ != "mute"@) by {
        assert("deaf"@[0] != "mute"@[0]);
    }
    assert("deaf"@ != "user_id"@) by {
        assert("deaf"@.len() != "user_id"@.len());
    }
    assert("deaf"@ != "joined_at"@) by {
        assert("deaf"@.len() != "joined_at"@.len());
    }
    assert("deaf"@ != "nick"@) by {
        assert("deaf"@[0] != "nick"@[0]);
    }
    assert("mute"@ != "user_id"@) by {
        assert("mute"@.len() != "user_id"@.len());
    }
    assert("mute"@ != "joined_at"@) by {
        assert("mute"@.len() != "joined_at"@.len());
    }
    assert("mute"@ != "nick"@) by {
        assert("mute"@[0] != "nick"@[0]);
    }
    assert("user_id"@ != "joined_at"@) by {
        assert("user_id"@.len() != "joined_at"@.len());
    }
    assert("user_id"@ != "nick"@) by {
        assert("user_id"@.len() != "nick"@.len());
    }
    assert("joined_at"@ != "nick"@) by {
        assert("joined_at"@.len() != "nick"@.len());
    }
}

proof fn lemma_role_field_names()
    ensures
        "colour"@ != "name"@,
        "colour"@ != "permissions"@,
        "name"@ != "permissions"@,
{
    reveal_strlit("colour");
    reveal_strlit("name");
    reveal_strlit("permissions");
    assert("colour"@ != "name"@) by {
        assert("colour"@.len() != "name"@.len());
    }
    assert("colour"@ != "permissions"@) by {
        assert("colour"@.len() != "permissions"@.len());
    }
    assert("name"@ != "permissions"@) by {
        assert("name"@.len() != "permissions"@.len());
    }
}

/// The decimal texts of ids read back as the same ids.
pub proof fn lemma_ids_round_trip(ids: Seq<u64>)
    ensures
        parsed_ids(id_texts(ids)) == Some(ids),
    decreases ids.len(),
{
    if ids.len() > 0 {
        lemma_ids_round_trip(ids.drop_last());
        assert(id_texts(ids).drop_last() =~= id_texts(ids.drop_last()));
        lemma_parse_decimal(ids.last());
        assert(ids.drop_last().push(ids.last()) =~= ids);
    } else {
        assert(id_texts(ids) =~= Seq::<Seq<char>>::empty());
    }
}

/// The guild that a snapshot's writes store, read back from the guild hash
/// and listings of its sets that hold the snapshot's ids in order.
pub open spec fn snapshot_guild(g: GuildSnapshot) -> GuildView {
    GuildView {
        afk_channel_id: g.afk_channel_id,
        channels: g.channels@,
        features: texts(g.features@),
        members: g.members@.map_values(|m: MemberSnapshot| m.user_id),
        name: g.name@,
        owner_id: g.owner_id,
        region: g.region@,
        roles: g.roles@.map_values(|r: RoleSnapshot| r.id),
        voice_states: voice_users(g.voice_states@),
    }
}

/// The hash that a guild's writes leave at its key reads back, with the
/// listings of the sets that the same upsert writes, as the snapshot's
/// guild: every field, ids included, exactly.
pub proof fn lemma_guild_round_trip(s: StoreView, g: GuildSnapshot, sets: GuildSets)
    requires
        hash_slot(s, Key::Guild(g.id)) is Some,
        texts(sets.channels@) == id_texts(g.channels@),
        texts(sets.features@) == texts(g.features@),
        texts(sets.members@) == id_texts(g.members@.map_values(|m: MemberSnapshot| m.user_id)),
        texts(sets.roles@) == id_texts(g.roles@.map_values(|r: RoleSnapshot| r.id)),
        texts(sets.voice_states@) == id_texts(voice_users(g.voice_states@)),
    ensures
        ({
            let t = run(s, guild_hash_ops(g));
            &&& t.contains_key(Key::Guild(g.id))
            &&& t[Key::Guild(g.id)] matches Stored::Hash(h) && decode_guild(h, sets) == Some(
                snapshot_guild(g),
            )
        }),
{
    let k = Key::Guild(g.id);
    let h0 = hash_slot(s, k)->Some_0;
    lemma_guild_field_names();
    lemma_parse_decimal(g.owner_id);
    lemma_ids_round_trip(g.channels@);
    lemma_ids_round_trip(g.members@.map_values(|m: MemberSnapshot| m.user_id));
    lemma_ids_round_trip(g.roles@.map_values(|r: RoleSnapshot| r.id));
    lemma_ids_round_trip(voice_users(g.voice_states@));
    lemma_single_to_set("afk_channel_id"@);
    let f3 = Seq::<(Seq<char>, Seq<char>)>::empty().push(("name"@, g.name@)).push(
        ("owner_id"@, decimal(g.owner_id as nat)),
    ).push(("region"@, g.region@));
    lemma_with_fields_push(h0, Seq::empty(), ("name"@, g.name@));
    lemma_with_fields_push(
        h0,
        Seq::empty().push(("name"@, g.name@)),
        ("owner_id"@, decimal(g.owner_id as nat)),
    );
    lemma_with_fields_push(
        h0,
        Seq::empty().push(("name"@, g.name@)).push(("owner_id"@, decimal(g.owner_id as nat))),
        ("region"@, g.region@),
    );
    let set = Op::HSet(k, guild_fields(g));
    lemma_run_push(s, Seq::empty(), set);
    match g.afk_channel_id {
        Some(a) => {
            lemma_parse_decimal(a);
            assert(guild_fields(g) =~= f3.push(("afk_channel_id"@, decimal(a as nat))));
            lemma_with_fields_push(h0, f3, ("afk_channel_id"@, decimal(a as nat)));
            assert(guild_hash_ops(g) =~= Seq::empty().push(set));
        },
        None => {
            assert(guild_fields(g) =~= f3);
            let del = Op::HDel(k, seq!["afk_channel_id"@]);
            assert(guild_hash_ops(g) =~= Seq::empty().push(set).push(del));
            lemma_run_push(s, Seq::empty().push(set), del);
            let h1 = with_fields(h0, f3);
            assert(h1.remove_keys(seq!["afk_channel_id"@].to_set()).contains_key("name"@));
        },
    }
}

/// The fields of a role's hash.
pub open spec fn role_fields(r: RoleSnapshot) -> Seq<(Seq<char>, Seq<char>)> {
    seq![
        ("colour"@, decimal(r.colour as nat)),
        ("name"@, r.name@),
        ("permissions"@, decimal(r.permissions as nat)),
    ]
}

/// A role's write, over whatever hash stood at its key, reads back as the
/// role: its name, its permission bits and its colour, exactly.
pub proof fn lemma_role_round_trip(base: Map<Seq<char>, Seq<char>>, g: u64, r: RoleSnapshot)
    ensures
        role_op(g, r) == Op::HSet(Key::Role(g, r.id), role_fields(r)),
        decode_role(with_fields(base, role_fields(r))) == Some(
            RoleView { name: r.name@, permissions: r.permissions, colour: Some(r.colour) },
        ),
{
    lemma_role_field_names();
    lemma_parse_decimal(r.colour);
    lemma_parse_decimal(r.permissions);
    let w0 = ("colour"@, decimal(r.colour as nat));
    let w1 = ("name"@, r.name@);
    let w2 = ("permissions"@, decimal(r.permissions as nat));
    assert(role_fields(r) =~= Seq::empty().push(w0).push(w1).push(w2));
    lemma_with_fields_push(base, Seq::empty(), w0);
    lemma_with_fields_push(base, Seq::empty().push(w0), w1);
    lemma_with_fields_push(base, Seq::empty().push(w0).push(w1), w2);
}

/// The member that a snapshot's member writes store.
pub open spec fn snapshot_member(m: MemberSnapshot) -> MemberView {
    MemberView {
        user_id: m.user_id,
        deaf: m.deaf,
        mute: m.mute,
        nick: opt_text(m.nick),
        joined_at: opt_text(m.joined_at),
        roles: m.roles@,
    }
}

/// A member's hash writes, over whatever hash stood at its key, read back
/// with the listing of its role set as the member: flags, user id, nickname
/// and join time, and role ids, exactly; an absent nickname or join time
/// reads back absent.
pub proof fn lemma_member_round_trip(s: StoreView, g: u64, m: MemberSnapshot)
    requires
        hash_slot(s, Key::Member(g, m.user_id)) is Some,
    ensures
        ({
            let k = Key::Member(g, m.user_id);
            let w = member_ops(g, m).subrange(0, member_ops(g, m).len() - replace_ops(
                Key::MemberRoles(g, m.user_id),
                id_texts(m.roles@),
            ).len());
            let t = run(s, w);
            &&& t.contains_key(k)
            &&& t[k] matches Stored::Hash(h) && decode_member(h, id_texts(m.roles@)) == Some(
                snapshot_member(m),
            )
        }),
{
    let k = Key::Member(g, m.user_id);
    lemma_member_field_names();
    lemma_parse_decimal(m.user_id);
    lemma_flag(m.deaf);
    lemma_flag(m.mute);
    lemma_ids_round_trip(m.roles@);
    let absent = member_absent(m);
    let clear = if absent.len() > 0 {
        seq![Op::HDel(k, absent)]
    } else {
        Seq::empty()
    };
    let w = clear.push(Op::HSet(k, member_fields(m)));
    let tail = replace_ops(Key::MemberRoles(g, m.user_id), id_texts(m.roles@));
    assert(member_ops(g, m) == w + tail);
    assert((w + tail).subrange(0, (w + tail).len() - tail.len()) =~= w);
    lemma_run_push(s, clear, Op::HSet(k, member_fields(m)));
    let r0 = run(s, clear);
    if absent.len() > 0 {
        assert(clear =~= Seq::<Op>::empty().push(Op::HDel(k, absent)));
        lemma_run_push(s, Seq::<Op>::empty(), Op::HDel(k, absent));
    } else {
        assert(r0 == s);
    }
    let base = match r0.contains_key(k) {
        true => match r0[k] {
            Stored::Hash(h) => h,
            _ => Map::empty(),
        },
        false => Map::empty(),
    };
    assert(absent.to_set().contains("nick"@) <==> m.nick is None) by {
        if m.nick is None {
            assert(absent[absent.len() - 1] == "nick"@);
        }
        if absent.to_set().contains("nick"@) {
            let i = choose|i: int| 0 <= i < absent.len() && absent[i] == "nick"@;
        }
    }
    assert(absent.to_set().contains("joined_at"@) <==> m.joined_at is None) by {
        if m.joined_at is None {
            assert(absent[0] == "joined_at"@);
        }
        if absent.to_set().contains("joined_at"@) {
            let i = choose|i: int| 0 <= i < absent.len() && absent[i] == "joined_at"@;
        }
    }
    if m.nick is None {
        assert(!base.contains_key("nick"@));
    }
    if m.joined_at is None {
        assert(!base.contains_key("joined_at"@));
    }
    let w0 = ("deaf"@, flag_text(m.deaf));
    let w1 = ("mute"@, flag_text(m.mute));
    let w2 = ("user_id"@, decimal(m.user_id as nat));
    let f3 = Seq::<(Seq<char>, Seq<char>)>::empty().push(w0).push(w1).push(w2);
    lemma_with_fields_push(base, Seq::empty(), w0);
    lemma_with_fields_push(base, Seq::empty().push(w0), w1);
    lemma_with_fields_push(base, Seq::empty().push(w0).push(w1), w2);
    let f4 = match m.joined_at {
        Some(j) => {
            lemma_with_fields_push(base, f3, ("joined_at"@, j@));
            f3.push(("joined_at"@, j@))
        },
        None => f3,
    };
    match m.nick {
        Some(n) => {
            lemma_with_fields_push(base, f4, ("nick"@, n@));
            assert(member_fields(m) =~= f4.push(("nick"@, n@)));
        },
        None => {
            assert(member_fields(m) =~= f4);
        },
    }
}

proof fn lemma_members_ops_keys(g: u64, ms: Seq<MemberSnapshot>)
    ensures
        forall|i: int|
            0 <= i < members_ops(g, ms).len() ==> (op_key(#[trigger] members_ops(g, ms)[i]) is Member
                || op_key(members_ops(g, ms)[i]) is MemberRoles),
    decreases ms.len(),
{
    if ms.len() > 0 {
        lemma_members_ops_keys(g, ms.drop_last());
        let a = members_ops(g, ms.drop_last());
        let b = member_ops(g, ms.last());
        assert forall|i: int| 0 <= i < (a + b).len() implies (op_key(#[trigger] (a + b)[i]) is Member
            || op_key((a + b)[i]) is MemberRoles) by {
            if i >= a.len() {
                assert((a + b)[i] == b[i - a.len()]);
            }
        }
    }
}

proof fn lemma_roles_ops_keys(g: u64, rs: Seq<RoleSnapshot>)
    ensures
        forall|i: int|
            0 <= i < roles_ops(g, rs).len() ==> op_key(#[trigger] roles_ops(g, rs)[i]) is Role,
    decreases rs.len(),
{
    if rs.len() > 0 {
        lemma_roles_ops_keys(g, rs.drop_last());
        let a = roles_ops(g, rs.drop_last());
        assert forall|i: int| 0 <= i < a.push(role_op(g, rs.last())).len() implies op_key(
            #[trigger] a.push(role_op(g, rs.last()))[i],
        ) is Role by {
            if i < a.len() {
                assert(a.push(role_op(g, rs.last()))[i] == a[i]);
            }
        }
    }
}

proof fn lemma_channel_sets_ops_keys(vs: Seq<VoiceUpdate>, cs: Seq<u64>)
    ensures
        forall|i: int|
            0 <= i < channel_sets_ops(vs, cs).len() ==> op_key(
                #[trigger] channel_sets_ops(vs, cs)[i],
            ) is ChannelVoiceStates,
    decreases cs.len(),
{
    if cs.len() > 0 {
        lemma_channel_sets_ops_keys(vs, cs.drop_last());
        let a = channel_sets_ops(vs, cs.drop_last());
        let b = replace_ops(Key::ChannelVoiceStates(cs.last()), id_texts(users_in(vs, cs.last())));
        assert forall|i: int| 0 <= i < (a + b).len() implies op_key(
            #[trigger] (a + b)[i],
        ) is ChannelVoiceStates by {
            if i >= a.len() {
                assert((a + b)[i] == b[i - a.len()]);
            }
        }
    }
}

proof fn lemma_voice_hashes_ops_keys(g: u64, vs: Seq<VoiceUpdate>)
    ensures
        forall|i: int|
            0 <= i < voice_hashes_ops(g, vs).len() ==> op_key(
                #[trigger] voice_hashes_ops(g, vs)[i],
            ) is UserVoiceState,
    decreases vs.len(),
{
    if vs.len() > 0 {
        lemma_voice_hashes_ops_keys(g, vs.drop_last());
        let a = voice_hashes_ops(g, vs.drop_last());
        let b = voice_hash_ops(g, vs.last());
        assert forall|i: int| 0 <= i < (a + b).len() implies op_key(
            #[trigger] (a + b)[i],
        ) is UserVoiceState by {
            if i >= a.len() {
                assert((a + b)[i] == b[i - a.len()]);
            }
        }
    }
}

proof fn lemma_replace(s: StoreView, k: Key, items: Seq<Seq<char>>)
    ensures
        members(run(s, replace_ops(k, items)), k) == items.to_set(),
        members_slot(run(s, replace_ops(k, items)), k) is Some,
{
    lemma_run_push(s, Seq::empty(), Op::Del(k));
    assert(seq![Op::Del(k)] =~= Seq::<Op>::empty().push(Op::Del(k)));
    if items.len() == 0 {
        assert(items.to_set() =~= Set::<Seq<char>>::empty());
    } else {
        assert(replace_ops(k, items) =~= seq![Op::Del(k)].push(Op::SAdd(k, items)));
        lemma_run_push(s, seq![Op::Del(k)], Op::SAdd(k, items));
        assert(Set::<Seq<char>>::empty() + items.to_set() =~= items.to_set());
    }
}

/// A whole-guild upsert replaces each membership set of the guild: after
/// it, the channel, feature, member, role and voice sets hold exactly the
/// snapshot's entries, and nothing of what they held before survives unless
/// the snapshot has it too.
pub proof fn lemma_guild_sets_replaced(s: StoreView, g: GuildSnapshot)
    ensures
        ({
            let t = run(s, guild_ops(g));
            &&& members(t, Key::GuildChannels(g.id)) == id_texts(g.channels@).to_set()
            &&& members(t, Key::GuildFeatures(g.id)) == texts(g.features@).to_set()
            &&& members(t, Key::GuildMembers(g.id)) == id_texts(
                g.members@.map_values(|m: MemberSnapshot| m.user_id),
            ).to_set()
            &&& members(t, Key::GuildRoles(g.id)) == id_texts(
                g.roles@.map_values(|r: RoleSnapshot| r.id),
            ).to_set()
            &&& members(t, Key::GuildVoiceStates(g.id)) == id_texts(
                voice_users(g.voice_states@),
            ).to_set()
        }),
{
    let id = g.id;
    let vs = g.voice_states@;
    let kc = Key::GuildChannels(id);
    let kf = Key::GuildFeatures(id);
    let km = Key::GuildMembers(id);
    let kr = Key::GuildRoles(id);
    let kv = Key::GuildVoiceStates(id);
    let hc = guild_hash_ops(g);
    let rc = replace_ops(kc, id_texts(g.channels@));
    let rf = replace_ops(kf, texts(g.features@));
    let rm = replace_ops(km, id_texts(g.members@.map_values(|m: MemberSnapshot| m.user_id)));
    let mo = members_ops(id, g.members@);
    let rr = replace_ops(kr, id_texts(g.roles@.map_values(|r: RoleSnapshot| r.id)));
    let ro = roles_ops(id, g.roles@);
    let rv = replace_ops(kv, id_texts(voice_users(vs)));
    let cs = channel_sets_ops(vs, voice_channels(vs));
    let vh = voice_hashes_ops(id, vs);
    let w1 = hc;
    let w2 = w1 + rc;
    let w3 = w2 + rf;
    let w4 = w3 + rm;
    let w5 = w4 + mo;
    let w6 = w5 + rr;
    let w7 = w6 + ro;
    let w8 = w7 + rv;
    let w9 = w8 + cs;
    let w10 = w9 + vh;
    assert(guild_ops(g) == w10);
    lemma_members_ops_keys(id, g.members@);
    lemma_roles_ops_keys(id, g.roles@);
    lemma_channel_sets_ops_keys(vs, voice_channels(vs));
    lemma_voice_hashes_ops_keys(id, vs);
    let targets = seq![kc, kf, km, kr, kv];
    assert forall|j: int| 0 <= j < 5 implies untouched(mo, #[trigger] targets[j]) && untouched(
        ro,
        targets[j],
    ) && untouched(cs, targets[j]) && untouched(vh, targets[j]) by {
        assert forall|i: int| 0 <= i < mo.len() implies op_key(#[trigger] mo[i]) != targets[j] by {}
        assert forall|i: int| 0 <= i < ro.len() implies op_key(#[trigger] ro[i]) != targets[j] by {}
        assert forall|i: int| 0 <= i < cs.len() implies op_key(#[trigger] cs[i]) != targets[j] by {}
        assert forall|i: int| 0 <= i < vh.len() implies op_key(#[trigger] vh[i]) != targets[j] by {}
    }
    assert(targets[0] == kc && targets[1] == kf && targets[2] == km && targets[3] == kr
        && targets[4] == kv);
    // each set holds the snapshot's entries right after its replacement
    lemma_run_concat(s, w1, rc);
    lemma_replace(run(s, w1), kc, id_texts(g.channels@));
    lemma_run_concat(s, w2, rf);
    lemma_replace(run(s, w2), kf, texts(g.features@));
    lemma_run_concat(s, w3, rm);
    lemma_replace(run(s, w3), km, id_texts(g.members@.map_values(|m: MemberSnapshot| m.user_id)));
    lemma_run_concat(s, w5, rr);
    lemma_replace(run(s, w5), kr, id_texts(g.roles@.map_values(|r: RoleSnapshot| r.id)));
    lemma_run_concat(s, w7, rv);
    lemma_replace(run(s, w7), kv, id_texts(voice_users(vs)));
    // and the writes after it leave it alone
    lemma_run_concat_untouched(s, w2, rf, kc);
    lemma_run_concat_untouched(s, w3, rm, kc);
    lemma_run_concat_untouched(s, w3, rm, kf);
    lemma_run_concat_untouched(s, w4, mo, kc);
    lemma_run_concat_untouched(s, w4, mo, kf);
    lemma_run_concat_untouched(s, w4, mo, km);
    lemma_run_concat_untouched(s, w5, rr, kc);
    lemma_run_concat_untouched(s, w5, rr, kf);
    lemma_run_concat_untouched(s, w5, rr, km);
    lemma_run_concat_untouched(s, w6, ro, kc);
    lemma_run_concat_untouched(s, w6, ro, kf);
    lemma_run_concat_untouched(s, w6, ro, km);
    lemma_run_concat_untouched(s, w6, ro, kr);
    lemma_run_concat_untouched(s, w7, rv, kc);
    lemma_run_concat_untouched(s, w7, rv, kf);
    lemma_run_concat_untouched(s, w7, rv, km);
    lemma_run_concat_untouched(s, w7, rv, kr);
    lemma_run_concat_untouched(s, w8, cs, kc);
    lemma_run_concat_untouched(s, w8, cs, kf);
    lemma_run_concat_untouched(s, w8, cs, km);
    lemma_run_concat_untouched(s, w8, cs, kr);
    lemma_run_concat_untouched(s, w8, cs, kv);
    lemma_run_concat_untouched(s, w9, vh, kc);
    lemma_run_concat_untouched(s, w9, vh, kf);
    lemma_run_concat_untouched(s, w9, vh, km);
    lemma_run_concat_untouched(s, w9, vh, kr);
    lemma_run_concat_untouched(s, w9, vh, kv);
}

proof fn lemma_voice_channels_distinct(vs: Seq<VoiceUpdate>)
    ensures
        voice_channels(vs).no_duplicates(),
    decreases vs.len(),
{
    if vs.len() > 0 {
        lemma_voice_channels_distinct(vs.drop_last());
    }
}

proof fn lemma_channel_sets(s: StoreView, vs: Seq<VoiceUpdate>, cs: Seq<u64>)
    requires
        cs.no_duplicates(),
    ensures
        forall|i: int|
            0 <= i < cs.len() ==> members(
                run(s, channel_sets_ops(vs, cs)),
                Key::ChannelVoiceStates(#[trigger] cs[i]),
            ) == id_texts(users_in(vs, cs[i])).to_set(),
    decreases cs.len(),
{
    if cs.len() > 0 {
        let rest = cs.drop_last();
        let c = cs.last();
        let a = channel_sets_ops(vs, rest);
        let b = replace_ops(Key::ChannelVoiceStates(c), id_texts(users_in(vs, c)));
        lemma_channel_sets(s, vs, rest);
        lemma_run_concat(s, a, b);
        lemma_replace(run(s, a), Key::ChannelVoiceStates(c), id_texts(users_in(vs, c)));
        assert forall|i: int| 0 <= i < cs.len() implies members(
            run(s, channel_sets_ops(vs, cs)),
            Key::ChannelVoiceStates(#[trigger] cs[i]),
        ) == id_texts(users_in(vs, cs[i])).to_set() by {
            if i < cs.len() - 1 {
                assert(cs[i] == rest[i]);
                assert(cs[i] != c);
                lemma_run_concat_untouched(s, a, b, Key::ChannelVoiceStates(cs[i]));
            }
        }
    }
}

/// A whole-guild upsert replaces the voice set of each channel that the
/// snapshot's voice states name, in one pass: after it, each such set holds
/// exactly the users of the snapshot in that channel.
pub proof fn lemma_channel_sets_replaced(s: StoreView, g: GuildSnapshot, c: u64)
    requires
        voice_channels(g.voice_states@).contains(c),
    ensures
        members(run(s, guild_ops(g)), Key::ChannelVoiceStates(c)) == id_texts(
            users_in(g.voice_states@, c),
        ).to_set(),
{
    let id = g.id;
    let vs = g.voice_states@;
    let cs = voice_channels(vs);
    let w8 = guild_hash_ops(g) + replace_ops(Key::GuildChannels(id), id_texts(g.channels@))
        + replace_ops(Key::GuildFeatures(id), texts(g.features@)) + replace_ops(
        Key::GuildMembers(id),
        id_texts(g.members@.map_values(|m: MemberSnapshot| m.user_id)),
    ) + members_ops(id, g.members@) + replace_ops(
        Key::GuildRoles(id),
        id_texts(g.roles@.map_values(|r: RoleSnapshot| r.id)),
    ) + roles_ops(id, g.roles@) + replace_ops(Key::GuildVoiceStates(id), id_texts(voice_users(vs)));
    let sets = channel_sets_ops(vs, cs);
    let vh = voice_hashes_ops(id, vs);
    assert(guild_ops(g) == w8 + sets + vh);
    lemma_voice_channels_distinct(vs);
    lemma_voice_hashes_ops_keys(id, vs);
    lemma_channel_sets(run(s, w8), vs, cs);
    lemma_run_concat(s, w8, sets);
    lemma_run_concat_untouched(s, w8 + sets, vh, Key::ChannelVoiceStates(c));
    let i = choose|i: int| 0 <= i < cs.len() && cs[i] == c;
    assert(members(run(run(s, w8), sets), Key::ChannelVoiceStates(cs[i])) == id_texts(
        users_in(vs, cs[i]),
    ).to_set());
}

} // verus!
