use vstd::prelude::*;
use crate::error::Error;
use crate::number::{parse_u64, parsed_u64};
use crate::record::{
    Fields, Record, flag_value, number_field, opt_text, optional_flag, optional_number, pair_up,
    text_field,
};
use crate::store::texts;

verus! {

/// The record that a hash read spells: not found where the reply is empty,
/// a shape failure where its items do not pair up.
pub open spec fn reply_record(flat: Seq<Seq<char>>) -> Result<Fields, Error> {
    if flat.len() == 0 {
        Err(Error::NotFound)
    } else if flat.len() % 2 == 1 {
        Err(Error::Materialize)
    } else {
        Ok(pair_up(flat))
    }
}

fn record_of(flat: &Vec<String>) -> (r: Result<Record, Error>)
    ensures
        match r {
            Ok(rec) => reply_record(texts(flat@)) == Ok::<Fields, Error>(rec@),
            Err(e) => reply_record(texts(flat@)) == Err::<Fields, Error>(e),
        },
{
    if flat.len() == 0 {
        return Err(Error::NotFound);
    }
    match Record::from_flat(flat) {
        Some(rec) => Ok(rec),
        None => Err(Error::Materialize),
    }
}

/// The numbers that each text of `t` writes, in order; none where one of
/// them writes none.
pub open spec fn parsed_ids(t: Seq<Seq<char>>) -> Option<Seq<u64>>
    decreases t.len(),
{
    if t.len() == 0 {
        Some(Seq::empty())
    } else {
        match (parsed_ids(t.drop_last()), parsed_u64(t.last())) {
            (Some(a), Some(n)) => Some(a.push(n)),
            _ => None,
        }
    }
}

/// Reads each member of a set of ids.
pub fn parse_ids(v: &Vec<String>) -> (r: Option<Vec<u64>>)
    ensures
        match r {
            Some(ids) => parsed_ids(texts(v@)) == Some(ids@),
            None => parsed_ids(texts(v@)) is None,
        },
{
    let mut ids: Vec<u64> = Vec::new();
    let mut i: usize = 0;
    assert(texts(v@).subrange(0, 0) =~= Seq::<Seq<char>>::empty());
    while i < v.len()
        invariant
            i <= v@.len(),
            parsed_ids(texts(v@).subrange(0, i as int)) == Some(ids@),
        decreases v@.len() - i,
    {
        let ghost t = texts(v@).subrange(0, i + 1);
        assert(t.drop_last() =~= texts(v@).subrange(0, i as int));
        match parse_u64(v[i].as_str()) {
            Some(n) => {
                ids.push(n);
            },
            None => {
                proof { lemma_parsed_ids_prefix(texts(v@), i + 1); }
                return None;
            },
        }
        i = i + 1;
    }
    assert(texts(v@).subrange(0, v@.len() as int) =~= texts(v@));
    Some(ids)
}

proof fn lemma_parsed_ids_prefix(t: Seq<Seq<char>>, i: int)
    requires
        0 <= i <= t.len(),
        parsed_ids(t.subrange(0, i)) is None,
    ensures
        parsed_ids(t) is None,
    decreases t.len() - i,
{
    if i < t.len() {
        assert(t.subrange(0, i + 1).drop_last() =~= t.subrange(0, i));
        lemma_parsed_ids_prefix(t, i + 1);
    } else {
        assert(t.subrange(0, i) =~= t);
    }
}

/// A user's voice state in a guild, as the cache holds it.
#[derive(Clone, Debug)]
pub struct VoiceState {
    pub channel_id: u64,
    pub session_id: String,
    pub token: Option<String>,
    pub endpoint: Option<String>,
    pub mute: Option<bool>,
    pub self_deaf: Option<bool>,
    pub self_mute: Option<bool>,
    pub suppress: Option<bool>,
}

/// A voice state, over mathematical values.
pub struct VoiceStateView {
    pub channel_id: u64,
    pub session_id: Seq<char>,
    pub token: Option<Seq<char>>,
    pub endpoint: Option<Seq<char>>,
    pub mute: Option<bool>,
    pub self_deaf: Option<bool>,
    pub self_mute: Option<bool>,
    pub suppress: Option<bool>,
}

impl View for VoiceState {
    type V = VoiceStateView;

    open spec fn view(&self) -> VoiceStateView {
        VoiceStateView {
            channel_id: self.channel_id,
            session_id: self.session_id@,
            token: opt_text(self.token),
            endpoint: opt_text(self.endpoint),
            mute: self.mute,
            self_deaf: self.self_deaf,
            self_mute: self.self_mute,
            suppress: self.suppress,
        }
    }
}

/// The voice state that a record holds: a channel id and a session id are
/// required; the flags, when present, must be `0` or `1`.
pub open spec fn decode_voice_state(f: Fields) -> Option<VoiceStateView> {
    match (
        number_field(f, "channel_id"@),
        text_field(f, "session_id"@),
        optional_flag(f, "mute"@),
        optional_flag(f, "self_deaf"@),
        optional_flag(f, "self_mute"@),
        optional_flag(f, "suppress"@),
    ) {
        (Some(c), Some(sid), Some(m), Some(sd), Some(sm), Some(sp)) => Some(
            VoiceStateView {
                channel_id: c,
                session_id: sid,
                token: f.get("token"@),
                endpoint: f.get("endpoint"@),
                mute: m,
                self_deaf: sd,
                self_mute: sm,
                suppress: sp,
            },
        ),
        _ => None,
    }
}

/// What a read of a voice-state hash gives: nothing where the hash is
/// absent, a shape failure where it does not decode.
pub open spec fn read_voice_state(flat: Seq<Seq<char>>) -> Result<Option<VoiceStateView>, Error> {
    if flat.len() == 0 {
        Ok(None)
    } else if flat.len() % 2 == 1 {
        Err(Error::Materialize)
    } else {
        match decode_voice_state(pair_up(flat)) {
            Some(v) => Ok(Some(v)),
            None => Err(Error::Materialize),
        }
    }
}

impl VoiceState {
    /// Decodes a voice state from a record.
    pub fn from_record(rec: &Record) -> (r: Option<VoiceState>)
        ensures
            match r {
                Some(v) => decode_voice_state(rec@) == Some(v@),
                None => decode_voice_state(rec@) is None,
            },
    {
        let channel_id = match rec.number("channel_id") {
            Some(c) => c,
            None => return None,
        };
        let session_id = match rec.text("session_id") {
            Some(s) => s,
            None => return None,
        };
        let mute = match rec.optional_flag("mute") {
            Some(b) => b,
            None => return None,
        };
        let self_deaf = match rec.optional_flag("self_deaf") {
            Some(b) => b,
            None => return None,
        };
        let self_mute = match rec.optional_flag("self_mute") {
            Some(b) => b,
            None => return None,
        };
        let suppress = match rec.optional_flag("suppress") {
            Some(b) => b,
            None => return None,
        };
        let token = rec.text("token");
        let endpoint = rec.text("endpoint");
        Some(VoiceState { channel_id, session_id, token, endpoint, mute, self_deaf, self_mute, suppress })
    }

    /// Decodes the reply of a read of a voice-state hash.
    pub fn from_reply(flat: &Vec<String>) -> (r: Result<Option<VoiceState>, Error>)
        ensures
            match r {
                Ok(Some(v)) => read_voice_state(texts(flat@)) == Ok::<Option<VoiceStateView>, Error>(Some(v@)),
                Ok(None) => read_voice_state(texts(flat@)) == Ok::<Option<VoiceStateView>, Error>(None),
                Err(e) => read_voice_state(texts(flat@)) == Err::<Option<VoiceStateView>, Error>(e),
            },
    {
        match record_of(flat) {
            Err(Error::NotFound) => Ok(None),
            Err(e) => Err(e),
            Ok(rec) => match VoiceState::from_record(&rec) {
                Some(v) => Ok(Some(v)),
                None => Err(Error::Materialize),
            },
        }
    }
}

/// A required flag field.
pub open spec fn flag_field(f: Fields, name: Seq<char>) -> Option<bool> {
    if f.contains_key(name) {
        flag_value(f[name])
    } else {
        None
    }
}

/// A role of a guild, as the cache holds it.
#[derive(Clone, Debug)]
pub struct Role {
    pub name: String,
    pub permissions: u64,
    pub colour: Option<u64>,
}

/// A role, over mathematical values.
pub struct RoleView {
    pub name: Seq<char>,
    pub permissions: u64,
    pub colour: Option<u64>,
}

impl View for Role {
    type V = RoleView;

    open spec fn view(&self) -> RoleView {
        RoleView { name: self.name@, permissions: self.permissions, colour: self.colour }
    }
}

/// The role that a record holds: a name and a permission bit set are
/// required; a colour, when present, is a number.
pub open spec fn decode_role(f: Fields) -> Option<RoleView> {
    match (text_field(f, "name"@), number_field(f, "permissions"@), optional_number(f, "colour"@)) {
        (Some(n), Some(p), Some(c)) => Some(RoleView { name: n, permissions: p, colour: c }),
        _ => None,
    }
}

/// What a read of a role hash gives.
pub open spec fn read_role(flat: Seq<Seq<char>>) -> Result<RoleView, Error> {
    match reply_record(flat) {
        Ok(f) => match decode_role(f) {
            Some(v) => Ok(v),
            None => Err(Error::Materialize),
        },
        Err(e) => Err(e),
    }
}

impl Role {
    /// Decodes the reply of a read of a role hash.
    pub fn from_reply(flat: &Vec<String>) -> (r: Result<Role, Error>)
        ensures
            match r {
                Ok(v) => read_role(texts(flat@)) == Ok::<RoleView, Error>(v@),
                Err(e) => read_role(texts(flat@)) == Err::<RoleView, Error>(e),
            },
    {
        let rec = match record_of(flat) {
            Ok(rec) => rec,
            Err(e) => return Err(e),
        };
        let name = match rec.text("name") {
            Some(n) => n,
            None => return Err(Error::Materialize),
        };
        let permissions = match rec.number("permissions") {
            Some(p) => p,
            None => return Err(Error::Materialize),
        };
        let colour = match rec.optional_number("colour") {
            Some(c) => c,
            None => return Err(Error::Materialize),
        };
        Ok(Role { name, permissions, colour })
    }
}

/// A member of a guild, as the cache holds it.
#[derive(Clone, Debug)]
pub struct Member {
    pub user_id: u64,
    pub deaf: bool,
    pub mute: bool,
    pub nick: Option<String>,
    pub joined_at: Option<String>,
    pub roles: Vec<u64>,
}

/// A member, over mathematical values.
pub struct MemberView {
    pub user_id: u64,
    pub deaf: bool,
    pub mute: bool,
    pub nick: Option<Seq<char>>,
    pub joined_at: Option<Seq<char>>,
    pub roles: Seq<u64>,
}

impl View for Member {
    type V = MemberView;

    open spec fn view(&self) -> MemberView {
        MemberView {
            user_id: self.user_id,
            deaf: self.deaf,
            mute: self.mute,
            nick: opt_text(self.nick),
            joined_at: opt_text(self.joined_at),
            roles: self.roles@,
        }
    }
}

/// The member that a record and a listing of its role set hold: a user id
/// and the two flags are required; each role is an id.
pub open spec fn decode_member(f: Fields, roles: Seq<Seq<char>>) -> Option<MemberView> {
    match (
        number_field(f, "user_id"@),
        flag_field(f, "deaf"@),
        flag_field(f, "mute"@),
        parsed_ids(roles),
    ) {
        (Some(u), Some(d), Some(m), Some(r)) => Some(
            MemberView {
                user_id: u,
                deaf: d,
                mute: m,
                nick: f.get("nick"@),
                joined_at: f.get("joined_at"@),
                roles: r,
            },
        ),
        _ => None,
    }
}

/// What the reads of a member hash and of its role set give.
pub open spec fn read_member(flat: Seq<Seq<char>>, roles: Seq<Seq<char>>) -> Result<MemberView, Error> {
    match reply_record(flat) {
        Ok(f) => match decode_member(f, roles) {
            Some(v) => Ok(v),
            None => Err(Error::Materialize),
        },
        Err(e) => Err(e),
    }
}

impl Member {
    /// Decodes the replies of the reads of a member hash and of its role set.
    pub fn from_replies(flat: &Vec<String>, roles: &Vec<String>) -> (r: Result<Member, Error>)
        ensures
            match r {
                Ok(v) => read_member(texts(flat@), texts(roles@)) == Ok::<MemberView, Error>(v@),
                Err(e) => read_member(texts(flat@), texts(roles@)) == Err::<MemberView, Error>(e),
            },
    {
        let rec = match record_of(flat) {
            Ok(rec) => rec,
            Err(e) => return Err(e),
        };
        let user_id = match rec.number("user_id") {
            Some(u) => u,
            None => return Err(Error::Materialize),
        };
        let deaf = match rec.flag("deaf") {
            Some(b) => b,
            None => return Err(Error::Materialize),
        };
        let mute = match rec.flag("mute") {
            Some(b) => b,
            None => return Err(Error::Materialize),
        };
        let roles = match parse_ids(roles) {
            Some(r) => r,
            None => return Err(Error::Materialize),
        };
        let nick = rec.text("nick");
        let joined_at = rec.text("joined_at");
        Ok(Member { user_id, deaf, mute, nick, joined_at, roles })
    }
}

/// A guild, as the cache holds it: its own fields, and the listings of its
/// five membership sets.
#[derive(Clone, Debug)]
pub struct Guild {
    pub afk_channel_id: Option<u64>,
    pub channels: Vec<u64>,
    pub features: Vec<String>,
    pub members: Vec<u64>,
    pub name: String,
    pub owner_id: u64,
    pub region: String,
    pub roles: Vec<u64>,
    pub voice_states: Vec<u64>,
}

/// A guild, over mathematical values.
pub struct GuildView {
    pub afk_channel_id: Option<u64>,
    pub channels: Seq<u64>,
    pub features: Seq<Seq<char>>,
    pub members: Seq<u64>,
    pub name: Seq<char>,
    pub owner_id: u64,
    pub region: Seq<char>,
    pub roles: Seq<u64>,
    pub voice_states: Seq<u64>,
}

impl View for Guild {
    type V = GuildView;

    open spec fn view(&self) -> GuildView {
        GuildView {
            afk_channel_id: self.afk_channel_id,
            channels: self.channels@,
            features: texts(self.features@),
            members: self.members@,
            name: self.name@,
            owner_id: self.owner_id,
            region: self.region@,
            roles: self.roles@,
            voice_states: self.voice_states@,
        }
    }
}

/// The listings of a guild's five membership sets.
pub struct GuildSets {
    pub channels: Vec<String>,
    pub features: Vec<String>,
    pub members: Vec<String>,
    pub roles: Vec<String>,
    pub voice_states: Vec<String>,
}

/// The guild that a record and the listings of its sets hold: a name, an
/// owner id and a region are required, an AFK channel, when present, is an
/// id, and so is each member of the channel, member, role and voice sets.
pub open spec fn decode_guild(f: Fields, sets: GuildSets) -> Option<GuildView> {
    match (
        text_field(f, "name"@),
        number_field(f, "owner_id"@),
        text_field(f, "region"@),
        optional_number(f, "afk_channel_id"@),
        parsed_ids(texts(sets.channels@)),
        parsed_ids(texts(sets.members@)),
        parsed_ids(texts(sets.roles@)),
        parsed_ids(texts(sets.voice_states@)),
    ) {
        (Some(n), Some(o), Some(r), Some(a), Some(c), Some(m), Some(ro), Some(v)) => Some(
            GuildView {
                afk_channel_id: a,
                channels: c,
                features: texts(sets.features@),
                members: m,
                name: n,
                owner_id: o,
                region: r,
                roles: ro,
                voice_states: v,
            },
        ),
        _ => None,
    }
}

/// What the reads of a guild hash and of its sets give: not found where the
/// hash is absent.
pub open spec fn read_guild(flat: Seq<Seq<char>>, sets: GuildSets) -> Result<GuildView, Error> {
    match reply_record(flat) {
        Ok(f) => match decode_guild(f, sets) {
            Some(v) => Ok(v),
            None => Err(Error::Materialize),
        },
        Err(e) => Err(e),
    }
}

fn ids_field(v: &Vec<String>) -> (r: Result<Vec<u64>, Error>)
    ensures
        match r {
            Ok(ids) => parsed_ids(texts(v@)) == Some(ids@),
            Err(e) => parsed_ids(texts(v@)) is None && e == Error::Materialize,
        },
{
    match parse_ids(v) {
        Some(ids) => Ok(ids),
        None => Err(Error::Materialize),
    }
}

impl Guild {
    /// Assembles a guild from the reply of a read of its hash and the
    /// listings of its sets.
    pub fn from_replies(flat: &Vec<String>, sets: GuildSets) -> (r: Result<Guild, Error>)
        ensures
            match r {
                Ok(v) => read_guild(texts(flat@), sets) == Ok::<GuildView, Error>(v@),
                Err(e) => read_guild(texts(flat@), sets) == Err::<GuildView, Error>(e),
            },
    {
        let rec = match record_of(flat) {
            Ok(rec) => rec,
            Err(e) => return Err(e),
        };
        let name = match rec.text("name") {
            Some(n) => n,
            None => return Err(Error::Materialize),
        };
        let owner_id = match rec.number("owner_id") {
            Some(o) => o,
            None => return Err(Error::Materialize),
        };
        let region = match rec.text("region") {
            Some(r) => r,
            None => return Err(Error::Materialize),
        };
        let afk_channel_id = match rec.optional_number("afk_channel_id") {
            Some(a) => a,
            None => return Err(Error::Materialize),
        };
        let channels = ids_field(&sets.channels)?;
        let members = ids_field(&sets.members)?;
        let roles = ids_field(&sets.roles)?;
        let voice_states = ids_field(&sets.voice_states)?;
        let features = sets.features;
        Ok(Guild { afk_channel_id, channels, features, members, name, owner_id, region, roles, voice_states })
    }
}

/// A user, as the cache holds it.
#[derive(Clone, Debug)]
pub struct User {
    pub bot: bool,
    pub discriminator: u16,
    pub id: u64,
    pub name: String,
}

/// A user, over mathematical values.
pub struct UserView {
    pub bot: bool,
    pub discriminator: u16,
    pub id: u64,
    pub name: Seq<char>,
}

impl View for User {
    type V = UserView;

    open spec fn view(&self) -> UserView {
        UserView { bot: self.bot, discriminator: self.discriminator, id: self.id, name: self.name@ }
    }
}

/// The user that a record holds: a bot flag, a discriminator that fits in
/// 16 bits, an id and a name are required.
pub open spec fn decode_user(f: Fields) -> Option<UserView> {
    match (
        flag_field(f, "bot"@),
        number_field(f, "discriminator"@),
        number_field(f, "id"@),
        text_field(f, "name"@),
    ) {
        (Some(b), Some(d), Some(i), Some(n)) => if d <= u16::MAX {
            Some(UserView { bot: b, discriminator: d as u16, id: i, name: n })
        } else {
            None
        },
        _ => None,
    }
}

/// What a read of a user hash gives.
pub open spec fn read_user(flat: Seq<Seq<char>>) -> Result<UserView, Error> {
    match reply_record(flat) {
        Ok(f) => match decode_user(f) {
            Some(v) => Ok(v),
            None => Err(Error::Materialize),
        },
        Err(e) => Err(e),
    }
}

impl User {
    /// Decodes the reply of a read of a user hash.
    pub fn from_reply(flat: &Vec<String>) -> (r: Result<User, Error>)
        ensures
            match r {
                Ok(v) => read_user(texts(flat@)) == Ok::<UserView, Error>(v@),
                Err(e) => read_user(texts(flat@)) == Err::<UserView, Error>(e),
            },
    {
        let rec = match record_of(flat) {
            Ok(rec) => rec,
            Err(e) => return Err(e),
        };
        let bot = match rec.flag("bot") {
            Some(b) => b,
            None => return Err(Error::Materialize),
        };
        let discriminator = match rec.number("discriminator") {
            Some(d) => d,
            None => return Err(Error::Materialize),
        };
        let id = match rec.number("id") {
            Some(i) => i,
            None => return Err(Error::Materialize),
        };
        let name = match rec.text("name") {
            Some(n) => n,
            None => return Err(Error::Materialize),
        };
        if discriminator > 65535 {
            return Err(Error::Materialize);
        }
        Ok(User { bot, discriminator: discriminator as u16, id, name })
    }
}

/// A permission overwrite of a channel, as the cache holds it.
#[derive(Clone, Copy, Debug, PartialEq, Eq, Structural)]
pub struct PermissionOverwrite {
    pub allow: u64,
    pub deny: u64,
    pub kind: u64,
}

/// The overwrite that a record holds: allowed and denied permission bits,
/// and the kind, are required numbers.
pub open spec fn decode_overwrite(f: Fields) -> Option<PermissionOverwrite> {
    match (number_field(f, "allow"@), number_field(f, "deny"@), number_field(f, "kind"@)) {
        (Some(a), Some(d), Some(k)) => Some(PermissionOverwrite { allow: a, deny: d, kind: k }),
        _ => None,
    }
}

/// What a read of a permission overwrite hash gives.
pub open spec fn read_overwrite(flat: Seq<Seq<char>>) -> Result<PermissionOverwrite, Error> {
    match reply_record(flat) {
        Ok(f) => match decode_overwrite(f) {
            Some(v) => Ok(v),
            None => Err(Error::Materialize),
        },
        Err(e) => Err(e),
    }
}

impl PermissionOverwrite {
    /// Decodes the reply of a read of a permission overwrite hash.
    pub fn from_reply(flat: &Vec<String>) -> (r: Result<PermissionOverwrite, Error>)
        ensures
            r == read_overwrite(texts(flat@)),
    {
        let rec = match record_of(flat) {
            Ok(rec) => rec,
            Err(e) => return Err(e),
        };
        match (rec.number("allow"), rec.number("deny"), rec.number("kind")) {
            (Some(allow), Some(deny), Some(kind)) => Ok(PermissionOverwrite { allow, deny, kind }),
            _ => Err(Error::Materialize),
        }
    }
}

/// How a guild's player repeats.
#[derive(Clone, Copy, Debug, Eq, Hash, PartialEq, Structural, PartialOrd, Ord)]
pub enum LoopMode {
    Queue,
    Song,
    Off,
}

/// The stored code of a loop mode.
pub open spec fn loop_code(m: LoopMode) -> Seq<char> {
    match m {
        LoopMode::Queue => "LQ"@,
        LoopMode::Song => "LS"@,
        LoopMode::Off => "OF"@,
    }
}

impl LoopMode {
    /// The stored code of looping over the queue.
    pub const LOOPING_QUEUE_ENCODED: &'static str = "LQ";
    /// The stored code of looping over one song.
    pub const LOOPING_SONG_ENCODED: &'static str = "LS";
    /// The stored code of not looping.
    pub const LOOPING_OFF_ENCODED: &'static str = "OF";

    /// The stored code of the mode.
    pub fn encode(&self) -> (r: String)
        ensures
            r@ == loop_code(*self),
    {
        match self {
            LoopMode::Queue => String::from_str("LQ"),
            LoopMode::Song => String::from_str("LS"),
            LoopMode::Off => String::from_str("OF"),
        }
    }

    /// The mode that a stored code names.
    pub fn try_from(value: String) -> (r: Result<LoopMode, Error>)
        ensures
            match r {
                Ok(m) => loop_code(m) == value@,
                Err(e) => e == Error::InvalidLoopMode && forall|m: LoopMode|
                    loop_code(m) != value@,
            },
    {
        if value == String::from_str("LQ") {
            Ok(LoopMode::Queue)
        } else if value == String::from_str("LS") {
            Ok(LoopMode::Song)
        } else if value == String::from_str("OF") {
            Ok(LoopMode::Off)
        } else {
            Err(Error::InvalidLoopMode)
        }
    }
}

/// Reads the listing of a set of user ids, such as a channel's or a guild's
/// voice set; a member that is no id is an error.
pub fn ids_from_listing(listed: &Vec<String>) -> (r: Result<Vec<u64>, Error>)
    ensures
        match r {
            Ok(ids) => parsed_ids(texts(listed@)) == Some(ids@),
            Err(e) => e == Error::ParseInt && parsed_ids(texts(listed@)) is None,
        },
{
    match parse_ids(listed) {
        Some(ids) => Ok(ids),
        None => Err(Error::ParseInt),
    }
}

/// What the reads of the voice-state hashes of the users `ids` give: each
/// user's voice state, in order. A user whose hash is absent is an error,
/// not skipped: the guild's set and the hashes disagree.
pub open spec fn read_voice_states(ids: Seq<u64>, replies: Seq<Seq<Seq<char>>>) -> Result<
    Seq<(u64, VoiceStateView)>,
    Error,
>
    decreases ids.len(),
{
    if ids.len() == 0 || ids.len() != replies.len() {
        Ok(Seq::empty())
    } else {
        match read_voice_states(ids.drop_last(), replies.drop_last()) {
            Ok(prev) => match read_voice_state(replies.last()) {
                Ok(Some(v)) => Ok(prev.push((ids.last(), v))),
                Ok(None) => Err(Error::NotFound),
                Err(e) => Err(e),
            },
            Err(e) => Err(e),
        }
    }
}

/// The text of each reply of a sequence of hash reads.
pub open spec fn reply_texts(replies: Seq<Vec<String>>) -> Seq<Seq<Seq<char>>> {
    replies.map_values(|r: Vec<String>| texts(r@))
}

/// The view of each pair of a user id and its voice state.
pub open spec fn voice_state_views(v: Seq<(u64, VoiceState)>) -> Seq<(u64, VoiceStateView)> {
    v.map_values(|p: (u64, VoiceState)| (p.0, p.1@))
}

/// Decodes the voice states of the users of a guild's voice set, from the
/// replies of the reads of their hashes, one reply for each user, in order.
pub fn voice_states_from_replies(
    ids: &Vec<u64>,
    replies: &Vec<Vec<String>>,
) -> (r: Result<Vec<(u64, VoiceState)>, Error>)
    requires
        ids@.len() == replies@.len(),
    ensures
        match r {
            Ok(v) => read_voice_states(ids@, reply_texts(replies@)) == Ok::<
                Seq<(u64, VoiceStateView)>,
                Error,
            >(voice_state_views(v@)),
            Err(e) => read_voice_states(ids@, reply_texts(replies@)) == Err::<
                Seq<(u64, VoiceStateView)>,
                Error,
            >(e),
        },
{
    let mut out: Vec<(u64, VoiceState)> = Vec::new();
    let mut i: usize = 0;
    assert(voice_state_views(out@) =~= Seq::empty());
    while i < ids.len()
        invariant
            ids@.len() == replies@.len(),
            i <= ids@.len(),
            read_voice_states(ids@.subrange(0, i as int), reply_texts(replies@).subrange(0, i as int))
                == Ok::<Seq<(u64, VoiceStateView)>, Error>(voice_state_views(out@)),
        decreases ids@.len() - i,
    {
        let ghost a = ids@.subrange(0, i + 1);
        let ghost b = reply_texts(replies@).subrange(0, i + 1);
        assert(a.drop_last() =~= ids@.subrange(0, i as int));
        assert(b.drop_last() =~= reply_texts(replies@).subrange(0, i as int));
        assert(b.last() == texts(replies@[i as int]@));
        match VoiceState::from_reply(&replies[i]) {
            Ok(Some(v)) => {
                let ghost prev = out@;
                out.push((ids[i], v));
                assert(voice_state_views(out@) =~= voice_state_views(prev).push((ids@[i as int], v@)));
            },
            Ok(None) => {
                proof { lemma_read_voice_states_err(ids@, reply_texts(replies@), i + 1); }
                return Err(Error::NotFound);
            },
            Err(e) => {
                proof { lemma_read_voice_states_err(ids@, reply_texts(replies@), i + 1); }
                return Err(e);
            },
        }
        i = i + 1;
    }
    assert(ids@.subrange(0, ids@.len() as int) =~= ids@);
    assert(reply_texts(replies@).subrange(0, ids@.len() as int) =~= reply_texts(replies@));
    Ok(out)
}

proof fn lemma_read_voice_states_err(ids: Seq<u64>, replies: Seq<Seq<Seq<char>>>, i: int)
    requires
        ids.len() == replies.len(),
        0 < i <= ids.len(),
        read_voice_states(ids.subrange(0, i), replies.subrange(0, i)) is Err,
    ensures
        read_voice_states(ids, replies) == read_voice_states(ids.subrange(0, i), replies.subrange(0, i)),
    decreases ids.len() - i,
{
    if i < ids.len() {
        assert(ids.subrange(0, i + 1).drop_last() =~= ids.subrange(0, i));
        assert(replies.subrange(0, i + 1).drop_last() =~= replies.subrange(0, i));
        lemma_read_voice_states_err(ids, replies, i + 1);
    } else {
        assert(ids.subrange(0, i) =~= ids);
        assert(replies.subrange(0, i) =~= replies);
    }
}

/// A record that was never written reads as not found, never as an object
/// with zero values: an absent guild, role or member hash gives the
/// not-found error, an absent voice-state hash gives no voice state.
pub proof fn lemma_absent_reads_not_found(sets: GuildSets, roles: Seq<Seq<char>>)
    ensures
        read_guild(Seq::empty(), sets) == Err::<GuildView, Error>(Error::NotFound),
        read_role(Seq::empty()) == Err::<RoleView, Error>(Error::NotFound),
        read_member(Seq::empty(), roles) == Err::<MemberView, Error>(Error::NotFound),
        read_voice_state(Seq::empty()) == Ok::<Option<VoiceStateView>, Error>(None),
{
}

} // verus!
