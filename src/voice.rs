use vstd::prelude::*;
use crate::error::Error;
use crate::keys::Key;
use crate::model::{
    VoiceState, VoiceStateView, decode_voice_state, parse_ids, parsed_ids, read_voice_state,
};
use crate::record::pair_up;
use crate::number::{decimal, lemma_parse_decimal, parsed_u64, to_decimal};
use crate::record::{flag_text, flag_value, opt_text};
use crate::store::{
    Command, Op, StoreView, Stored, apply, lemma_run_push, lemma_single_to_set, lemma_with_fields_push,
    members, members_slot, ops, run, text_pairs, texts, with_fields,
};

verus! {

/// A voice-state event for one user of a guild, as the chat platform reports
/// it. No channel id means that the user left voice.
#[derive(Clone, Debug)]
pub struct VoiceUpdate {
    pub user_id: u64,
    pub channel_id: Option<u64>,
    pub mute: bool,
    pub self_deaf: bool,
    pub self_mute: bool,
    pub suppress: bool,
    pub session_id: String,
    pub token: Option<String>,
}

/// The hash fields written for a user who is in voice in `channel`.
pub open spec fn voice_fields(channel: u64, u: VoiceUpdate) -> Seq<(Seq<char>, Seq<char>)> {
    let base = Seq::empty().push(("channel_id"@, decimal(channel as nat))).push(
        ("mute"@, flag_text(u.mute)),
    ).push(("self_deaf"@, flag_text(u.self_deaf))).push(
        ("self_mute"@, flag_text(u.self_mute)),
    ).push(("session_id"@, u.session_id@)).push(("suppress"@, flag_text(u.suppress)));
    match u.token {
        Some(t) => base.push(("token"@, t@)),
        None => base,
    }
}

/// The writes of a voice-state transition of user `u.user_id` in guild
/// `guild_id`, whose stored voice state had the channel `current`.
///
/// Into a channel: the voice-state hash is written (its token field removed
/// where the update has none), the user leaves the set of the channel it was
/// in before, joins the set of the new channel, and joins the guild's set.
/// Out of voice: the user leaves the set of the channel it was in and the
/// guild's set, and the voice-state hash is deleted.
pub open spec fn transition_ops(guild_id: u64, current: Option<u64>, u: VoiceUpdate) -> Seq<Op> {
    let user = seq![decimal(u.user_id as nat)];
    let key = Key::UserVoiceState(guild_id, u.user_id);
    match u.channel_id {
        Some(c) => {
            let w0 = if u.token is None {
                seq![Op::HDel(key, seq!["token"@])]
            } else {
                Seq::empty()
            };
            let w1 = w0.push(Op::HSet(key, voice_fields(c, u)));
            let w2 = match current {
                Some(old) => if old != c {
                    w1.push(Op::SRem(Key::ChannelVoiceStates(old), user))
                } else {
                    w1
                },
                None => w1,
            };
            let w3 = if current == Some(c) {
                w2
            } else {
                w2.push(Op::SAdd(Key::ChannelVoiceStates(c), user))
            };
            w3.push(Op::SAdd(Key::GuildVoiceStates(guild_id), user))
        },
        None => {
            let w0 = match current {
                Some(old) => seq![Op::SRem(Key::ChannelVoiceStates(old), user)],
                None => Seq::empty(),
            };
            w0.push(Op::SRem(Key::GuildVoiceStates(guild_id), user)).push(Op::Del(key))
        },
    }
}

/// The channel of a voice state, if there is one.
pub open spec fn channel_of(v: Option<VoiceStateView>) -> Option<u64> {
    match v {
        Some(v) => Some(v.channel_id),
        None => None,
    }
}

pub(crate) fn one(s: String) -> (r: Vec<String>)
    ensures
        texts(r@) == seq![s@],
{
    let mut v: Vec<String> = Vec::new();
    v.push(s);
    assert(texts(v@) =~= seq![s@]);
    v
}

pub(crate) fn flag_string(b: bool) -> (r: String)
    ensures
        r@ == flag_text(b),
{
    if b {
        String::from_str("1")
    } else {
        String::from_str("0")
    }
}

pub(crate) fn push_field(v: &mut Vec<(String, String)>, name: &str, value: String)
    ensures
        text_pairs(final(v)@) == text_pairs(old(v)@).push((name@, value@)),
{
    v.push((String::from_str(name), value));
    assert(text_pairs(final(v)@) =~= text_pairs(old(v)@).push((name@, value@)));
}

pub(crate) fn push_command(plan: &mut Vec<Command>, c: Command)
    ensures
        ops(final(plan)@) == ops(old(plan)@).push(c@),
{
    plan.push(c);
    assert(ops(final(plan)@) =~= ops(old(plan)@).push(c@));
}

pub(crate) fn voice_hash_fields(channel: u64, update: &VoiceUpdate) -> (r: Vec<(String, String)>)
    ensures
        text_pairs(r@) == voice_fields(channel, *update),
{
    let mut v: Vec<(String, String)> = Vec::new();
    assert(text_pairs(v@) =~= Seq::empty());
    push_field(&mut v, "channel_id", to_decimal(channel));
    push_field(&mut v, "mute", flag_string(update.mute));
    push_field(&mut v, "self_deaf", flag_string(update.self_deaf));
    push_field(&mut v, "self_mute", flag_string(update.self_mute));
    push_field(&mut v, "session_id", update.session_id.clone());
    push_field(&mut v, "suppress", flag_string(update.suppress));
    match &update.token {
        Some(t) => push_field(&mut v, "token", t.clone()),
        None => {},
    }
    v
}

/// Plans the writes of a voice-state transition, given the channel of the
/// voice state that the store held for the user before it.
pub fn voice_state_transition(
    guild_id: u64,
    current: Option<u64>,
    update: &VoiceUpdate,
) -> (r: Vec<Command>)
    ensures
        ops(r@) == transition_ops(guild_id, current, *update),
{
    let user = to_decimal(update.user_id);
    let key = Key::UserVoiceState(guild_id, update.user_id);
    let mut plan: Vec<Command> = Vec::new();
    assert(ops(plan@) =~= Seq::empty());
    match update.channel_id {
        Some(c) => {
            if update.token.is_none() {
                push_command(&mut plan, Command::HDel(key, one(String::from_str("token"))));
                assert(ops(plan@) =~= seq![Op::HDel(key, seq!["token"@])]);
            }
            push_command(&mut plan, Command::HSet(key, voice_hash_fields(c, update)));
            let mut same = false;
            match current {
                Some(old) => {
                    if old != c {
                        push_command(
                            &mut plan,
                            Command::SRem(Key::ChannelVoiceStates(old), one(user.clone())),
                        );
                    } else {
                        same = true;
                    }
                },
                None => {},
            }
            if !same {
                push_command(&mut plan, Command::SAdd(Key::ChannelVoiceStates(c), one(user.clone())));
            }
            push_command(&mut plan, Command::SAdd(Key::GuildVoiceStates(guild_id), one(user)));
        },
        None => {
            match current {
                Some(old) => {
                    push_command(
                        &mut plan,
                        Command::SRem(Key::ChannelVoiceStates(old), one(user.clone())),
                    );
                    assert(ops(plan@) =~= seq![
                        Op::SRem(Key::ChannelVoiceStates(old), seq![decimal(update.user_id as nat)]),
                    ]);
                },
                None => {},
            }
            push_command(&mut plan, Command::SRem(Key::GuildVoiceStates(guild_id), one(user)));
            push_command(&mut plan, Command::Del(key));
        },
    }
    plan
}

/// Plans a voice-state upsert: decodes the read of the user's current
/// voice-state hash, then plans the transition from it. A current record of
/// the wrong shape stops the upsert with its error.
pub fn upsert_voice_state(
    guild_id: u64,
    current: &Vec<String>,
    update: &VoiceUpdate,
) -> (r: Result<Vec<Command>, Error>)
    ensures
        match r {
            Ok(plan) => match read_voice_state(texts(current@)) {
                Ok(cur) => ops(plan@) == transition_ops(guild_id, channel_of(cur), *update),
                Err(_) => false,
            },
            Err(e) => read_voice_state(texts(current@)) == Err::<Option<VoiceStateView>, Error>(e),
        },
{
    match VoiceState::from_reply(current) {
        Ok(cur) => {
            let channel = match &cur {
                Some(v) => Some(v.channel_id),
                None => None,
            };
            Ok(voice_state_transition(guild_id, channel, update))
        },
        Err(e) => Err(e),
    }
}

/// The voice state that the store holds for user `u` of guild `g`: none
/// where its hash is absent; a failure where the hash does not decode, or the
/// key holds something other than a hash.
pub open spec fn stored_voice_state(
    s: StoreView,
    g: u64,
    u: u64,
) -> Result<Option<VoiceStateView>, Error> {
    let k = Key::UserVoiceState(g, u);
    if !s.contains_key(k) {
        Ok(None)
    } else {
        match s[k] {
            Stored::Hash(h) => match decode_voice_state(h) {
                Some(v) => Ok(Some(v)),
                None => Err(Error::Materialize),
            },
            _ => Err(Error::Store),
        }
    }
}

/// The store after an upsert of `u` in guild `g`, or the error that stops
/// it: the current voice state is read, then the transition from it runs.
pub open spec fn upserted(s: StoreView, g: u64, u: VoiceUpdate) -> Result<StoreView, Error> {
    match stored_voice_state(s, g, u.user_id) {
        Ok(cur) => Ok(run(s, transition_ops(g, channel_of(cur), u))),
        Err(e) => Err(e),
    }
}

/// The membership sets agree with the voice state stored for user `u` of
/// guild `g`: its voice-state hash exists and decodes exactly when the user
/// is in the guild's voice set, and the user is in the voice set of exactly
/// the channel that the hash names, or of none where there is no hash.
pub open spec fn voice_consistent(s: StoreView, g: u64, u: u64) -> bool {
    let user = decimal(u as nat);
    &&& members_slot(s, Key::GuildVoiceStates(g)) is Some
    &&& forall|x: u64| #[trigger] members_slot(s, Key::ChannelVoiceStates(x)) is Some
    &&& match stored_voice_state(s, g, u) {
        Ok(Some(v)) => {
            &&& members(s, Key::GuildVoiceStates(g)).contains(user)
            &&& forall|x: u64|
                #[trigger] members(s, Key::ChannelVoiceStates(x)).contains(user) <==> x
                    == v.channel_id
        },
        Ok(None) => {
            &&& !members(s, Key::GuildVoiceStates(g)).contains(user)
            &&& forall|x: u64| !#[trigger] members(s, Key::ChannelVoiceStates(x)).contains(user)
        },
        Err(_) => false,
    }
}

/// The voice state that a transition into `c` writes over the hash `base`.
pub open spec fn written_voice_state(
    base: Map<Seq<char>, Seq<char>>,
    c: u64,
    u: VoiceUpdate,
) -> VoiceStateView {
    VoiceStateView {
        channel_id: c,
        session_id: u.session_id@,
        token: match u.token {
            Some(t) => Some(t@),
            None => base.get("token"@),
        },
        endpoint: base.get("endpoint"@),
        mute: Some(u.mute),
        self_deaf: Some(u.self_deaf),
        self_mute: Some(u.self_mute),
        suppress: Some(u.suppress),
    }
}

pub(crate) proof fn lemma_flag(b: bool)
    ensures
        flag_value(flag_text(b)) == Some(b),
{
    reveal_strlit("0");
    reveal_strlit("1");
    assert("0"@ != "1"@) by {
        assert("0"@[0] != "1"@[0]);
    }
}

proof fn lemma_voice_field_names()
    ensures
        "channel_id"@ != "mute"@,
        "channel_id"@ != "self_deaf"@,
        "channel_id"@ != "self_mute"@,
        "channel_id"@ != "session_id"@,
        "channel_id"@ != "suppress"@,
        "channel_id"@ != "token"@,
        "channel_id"@ != "endpoint"@,
        "mute"@ != "self_deaf"@,
        "mute"@ != "self_mute"@,
        "mute"@ != "session_id"@,
        "mute"@ != "suppress"@,
        "mute"@ != "token"@,
        "mute"@ != "endpoint"@,
        "self_deaf"@ != "self_mute"@,
        "self_deaf"@ != "session_id"@,
        "self_deaf"@ != "suppress"@,
        "self_deaf"@ != "token"@,
        "self_deaf"@ != "endpoint"@,
        "self_mute"@ != "session_id"@,
        "self_mute"@ != "suppress"@,
        "self_mute"@ != "token"@,
        "self_mute"@ != "endpoint"@,
        "session_id"@ != "suppress"@,
        "session_id"@ != "token"@,
        "session_id"@ != "endpoint"@,
        "suppress"@ != "token"@,
        "suppress"@ != "endpoint"@,
        "token"@ != "endpoint"@,
{
    reveal_strlit("channel_id");
    reveal_strlit("mute");
    reveal_strlit("self_deaf");
    reveal_strlit("self_mute");
    reveal_strlit("session_id");
    reveal_strlit("suppress");
    reveal_strlit("token");
    reveal_strlit("endpoint");
    assert("channel_id"@ != "mute"@) by {
        assert("channel_id"@.len() != "mute"@.len());
    }
    assert("channel_id"@ != "self_deaf"@) by {
        assert("channel_id"@.len() != "self_deaf"@.len());
    }
    assert("channel_id"@ != "self_mute"@) by {
        assert("channel_id"@.len() != "self_mute"@.len());
    }
    assert("channel_id"@ != "session_id"@) by {
        assert("channel_id"@[0] != "session_id"@[0]);
    }
    assert("channel_id"@ != "suppress"@) by {
        assert("channel_id"@.len() != "suppress"@.len());
    }
    assert("channel_id"@ != "token"@) by {
        assert("channel_id"@.len() != "token"@.len());
    }
    assert("channel_id"@ != "endpoint"@) by {
        assert("channel_id"@.len() != "endpoint"@.len());
    }
    assert("mute"@ != "self_deaf"@) by {
        assert("mute"@.len() != "self_deaf"@.len());
    }
    assert("mute"@ != "self_mute"@) by {
        assert("mute"@.len() != "self_mute"@.len());
    }
    assert("mute"@ != "session_id"@) by {
        assert("mute"@.len() != "session_id"@.len());
    }
    assert("mute"@ != "suppress"@) by {
        assert("mute"@.len() != "suppress"@.len());
    }
    assert("mute"@ != "token"@) by {
        assert("mute"@.len() != "token"@.len());
    }
    assert("mute"@ != "endpoint"@) by {
        assert("mute"@.len() != "endpoint"@.len());
    }
    assert("self_deaf"@ != "self_mute"@) by {
        assert("self_deaf"@[5] != "self_mute"@[5]);
    }
    assert("self_deaf"@ != "session_id"@) by {
        assert("self_deaf"@.len() != "session_id"@.len());
    }
    assert("self_deaf"@ != "suppress"@) by {
        assert("self_deaf"@.len() != "suppress"@.len());
    }
    assert("self_deaf"@ != "token"@) by {
        assert("self_deaf"@.len() != "token"@.len());
    }
    assert("self_deaf"@ != "endpoint"@) by {
        assert("self_deaf"@.len() != "endpoint"@.len());
    }
    assert("self_mute"@ != "session_id"@) by {
        assert("self_mute"@.len() != "session_id"@.len());
    }
    assert("self_mute"@ != "suppress"@) by {
        assert("self_mute"@.len() != "suppress"@.len());
    }
    assert("self_mute"@ != "token"@) by {
        assert("self_mute"@.len() != "token"@.len());
    }
    assert("self_mute"@ != "endpoint"@) by {
        assert("self_mute"@.len() != "endpoint"@.len());
    }
    assert("session_id"@ != "suppress"@) by {
        assert("session_id"@.len() != "suppress"@.len());
    }
    assert("session_id"@ != "token"@) by {
        assert("session_id"@.len() != "token"@.len());
    }
    assert("session_id"@ != "endpoint"@) by {
        assert("session_id"@.len() != "endpoint"@.len());
    }
    assert("suppress"@ != "token"@) by {
        assert("suppress"@.len() != "token"@.len());
    }
    assert("suppress"@ != "endpoint"@) by {
        assert("suppress"@[0] != "endpoint"@[0]);
    }
    assert("token"@ != "endpoint"@) by {
        assert("token"@.len() != "endpoint"@.len());
    }
}

proof fn lemma_voice_hash(base: Map<Seq<char>, Seq<char>>, c: u64, u: VoiceUpdate)
    ensures
        decode_voice_state(with_fields(base, voice_fields(c, u))) == Some(
            written_voice_state(base, c, u),
        ),
        with_fields(with_fields(base, voice_fields(c, u)), voice_fields(c, u)) == with_fields(
            base,
            voice_fields(c, u),
        ),
        with_fields(base, voice_fields(c, u)).contains_key("channel_id"@),
        u.token is None ==> with_fields(base, voice_fields(c, u)).get("token"@) == base.get(
            "token"@,
        ),
{
    reveal_strlit("channel_id");
    reveal_strlit("mute");
    reveal_strlit("self_deaf");
    reveal_strlit("self_mute");
    reveal_strlit("session_id");
    reveal_strlit("suppress");
    reveal_strlit("token");
    reveal_strlit("endpoint");
    lemma_flag(u.mute);
    lemma_flag(u.self_deaf);
    lemma_flag(u.self_mute);
    lemma_flag(u.suppress);
    lemma_parse_decimal(c);
    let f0 = Seq::<(Seq<char>, Seq<char>)>::empty();
    let f1 = f0.push(("channel_id"@, decimal(c as nat)));
    let f2 = f1.push(("mute"@, flag_text(u.mute)));
    let f3 = f2.push(("self_deaf"@, flag_text(u.self_deaf)));
    let f4 = f3.push(("self_mute"@, flag_text(u.self_mute)));
    let f5 = f4.push(("session_id"@, u.session_id@));
    let f6 = f5.push(("suppress"@, flag_text(u.suppress)));
    assert forall|m: Map<Seq<char>, Seq<char>>| #[trigger]
        with_fields(m, f6) == m.insert("channel_id"@, decimal(c as nat)).insert(
            "mute"@,
            flag_text(u.mute),
        ).insert("self_deaf"@, flag_text(u.self_deaf)).insert(
            "self_mute"@,
            flag_text(u.self_mute),
        ).insert("session_id"@, u.session_id@).insert("suppress"@, flag_text(u.suppress)) by {
        lemma_with_fields_push(m, f0, ("channel_id"@, decimal(c as nat)));
        lemma_with_fields_push(m, f1, ("mute"@, flag_text(u.mute)));
        lemma_with_fields_push(m, f2, ("self_deaf"@, flag_text(u.self_deaf)));
        lemma_with_fields_push(m, f3, ("self_mute"@, flag_text(u.self_mute)));
        lemma_with_fields_push(m, f4, ("session_id"@, u.session_id@));
        lemma_with_fields_push(m, f5, ("suppress"@, flag_text(u.suppress)));
    }
    let h6 = base.insert("channel_id"@, decimal(c as nat)).insert("mute"@, flag_text(u.mute)).insert(
        "self_deaf"@,
        flag_text(u.self_deaf),
    ).insert("self_mute"@, flag_text(u.self_mute)).insert("session_id"@, u.session_id@).insert(
        "suppress"@,
        flag_text(u.suppress),
    );
    assert(with_fields(base, f6) == h6);
    lemma_voice_field_names();
    let h = with_fields(base, voice_fields(c, u));
    match u.token {
        Some(t) => {
            assert(voice_fields(c, u) == f6.push(("token"@, t@)));
            assert forall|m: Map<Seq<char>, Seq<char>>| #[trigger]
                with_fields(m, voice_fields(c, u)) == with_fields(m, f6).insert("token"@, t@) by {
                lemma_with_fields_push(m, f6, ("token"@, t@));
            }
            assert(h == h6.insert("token"@, t@));
            assert(with_fields(h, voice_fields(c, u)) =~= h);
        },
        None => {
            assert(voice_fields(c, u) == f6);
            assert(h == h6);
            assert(with_fields(h, voice_fields(c, u)) =~= h);
        },
    }
    assert(h.contains_key("channel_id"@) && h["channel_id"@] == decimal(c as nat));
    assert(h.contains_key("session_id"@) && h["session_id"@] == u.session_id@);
    assert(h.contains_key("mute"@) && h["mute"@] == flag_text(u.mute));
    assert(h.contains_key("self_deaf"@) && h["self_deaf"@] == flag_text(u.self_deaf));
    assert(h.contains_key("self_mute"@) && h["self_mute"@] == flag_text(u.self_mute));
    assert(h.contains_key("suppress"@) && h["suppress"@] == flag_text(u.suppress));
    assert(h.get("endpoint"@) == base.get("endpoint"@));
}

/// Applying the same voice-state upsert twice leaves the store as applying
/// it once does.
pub proof fn lemma_upsert_idempotent(s: StoreView, g: u64, u: VoiceUpdate)
    requires
        upserted(s, g, u) is Ok,
    ensures
        upserted(upserted(s, g, u)->Ok_0, g, u) == upserted(s, g, u),
{
    let s1 = upserted(s, g, u)->Ok_0;
    let cur = channel_of(stored_voice_state(s, g, u.user_id)->Ok_0);
    let user = seq![decimal(u.user_id as nat)];
    let key = Key::UserVoiceState(g, u.user_id);
    let gk = Key::GuildVoiceStates(g);
    lemma_single_to_set(decimal(u.user_id as nat));
    lemma_single_to_set("token"@);
    match u.channel_id {
        Some(c) => {
            let w0 = if u.token is None {
                seq![Op::HDel(key, seq!["token"@])]
            } else {
                Seq::empty()
            };
            let w1 = w0.push(Op::HSet(key, voice_fields(c, u)));
            let w2 = match cur {
                Some(old) => if old != c {
                    w1.push(Op::SRem(Key::ChannelVoiceStates(old), user))
                } else {
                    w1
                },
                None => w1,
            };
            let w3 = if cur == Some(c) {
                w2
            } else {
                w2.push(Op::SAdd(Key::ChannelVoiceStates(c), user))
            };
            let w4 = w3.push(Op::SAdd(gk, user));
            assert(transition_ops(g, cur, u) == w4);
            lemma_run_push(s, w0, Op::HSet(key, voice_fields(c, u)));
            if let Some(old) = cur {
                if old != c {
                    lemma_run_push(s, w1, Op::SRem(Key::ChannelVoiceStates(old), user));
                }
            }
            if cur != Some(c) {
                lemma_run_push(s, w2, Op::SAdd(Key::ChannelVoiceStates(c), user));
            }
            lemma_run_push(s, w3, Op::SAdd(gk, user));
            let r0 = run(s, w0);
            if u.token is None {
                assert(w0 =~= Seq::<Op>::empty().push(Op::HDel(key, seq!["token"@])));
                lemma_run_push(s, Seq::<Op>::empty(), Op::HDel(key, seq!["token"@]));
                assert(r0 == apply(s, Op::HDel(key, seq!["token"@])));
            } else {
                assert(r0 == s);
            }
            let base = match r0.contains_key(key) {
                true => match r0[key] {
                    Stored::Hash(h) => h,
                    _ => Map::empty(),
                },
                false => Map::empty(),
            };
            let r1 = run(s, w1);
            lemma_voice_hash(base, c, u);
            assert(r1 == r0.insert(key, Stored::Hash(with_fields(base, voice_fields(c, u)))));
            assert(s1.contains_key(key));
            assert(s1[key] == Stored::Hash(with_fields(base, voice_fields(c, u))));
            assert(stored_voice_state(s1, g, u.user_id) == Ok::<Option<VoiceStateView>, Error>(
                Some(written_voice_state(base, c, u)),
            ));
            let h1 = with_fields(base, voice_fields(c, u));
            lemma_voice_hash(h1, c, u);
            let v0 = if u.token is None {
                seq![Op::HDel(key, seq!["token"@])]
            } else {
                Seq::empty()
            };
            let v1 = v0.push(Op::HSet(key, voice_fields(c, u)));
            let v2 = v1.push(Op::SAdd(gk, user));
            assert(transition_ops(g, Some(c), u) == v2);
            lemma_run_push(s1, v0, Op::HSet(key, voice_fields(c, u)));
            lemma_run_push(s1, v1, Op::SAdd(gk, user));
            let q0 = run(s1, v0);
            if u.token is None {
                assert(v0 =~= Seq::<Op>::empty().push(Op::HDel(key, seq!["token"@])));
                lemma_run_push(s1, Seq::<Op>::empty(), Op::HDel(key, seq!["token"@]));
                assert(q0 == apply(s1, Op::HDel(key, seq!["token"@])));
                assert(!h1.contains_key("token"@));
                assert(h1.remove_keys(seq!["token"@].to_set()) =~= h1);
                assert(q0 =~= s1);
            } else {
                assert(q0 == s1);
            }
            assert(run(s1, v1) =~= s1);
            assert(run(s1, v2) =~= s1) by {
                match members_slot(s1, gk) {
                    Some(m) => {
                        assert(m.contains(decimal(u.user_id as nat)));
                        assert(m + user.to_set() =~= m);
                    },
                    None => {},
                }
            }
        },
        None => {
            let w0 = match cur {
                Some(old) => seq![Op::SRem(Key::ChannelVoiceStates(old), user)],
                None => Seq::empty(),
            };
            let w1 = w0.push(Op::SRem(gk, user));
            let w2 = w1.push(Op::Del(key));
            lemma_run_push(s, w0, Op::SRem(gk, user));
            lemma_run_push(s, w1, Op::Del(key));
            assert(!s1.contains_key(key));
            assert(stored_voice_state(s1, g, u.user_id) == Ok::<Option<VoiceStateView>, Error>(
                None,
            ));
            let v1 = Seq::<Op>::empty().push(Op::SRem(gk, user));
            let v2 = v1.push(Op::Del(key));
            assert(transition_ops(g, None, u) =~= v2);
            lemma_run_push(s1, Seq::<Op>::empty(), Op::SRem(gk, user));
            lemma_run_push(s1, v1, Op::Del(key));
            assert(!members(s1, gk).contains(decimal(u.user_id as nat)));
            assert(run(s1, v1) =~= s1) by {
                match members_slot(s1, gk) {
                    Some(m) => {
                        assert(m - user.to_set() =~= m);
                    },
                    None => {},
                }
            }
            assert(run(s1, v2) =~= s1);
        },
    }
}

/// A voice-state upsert on a store whose membership sets agree with the
/// user's stored voice state succeeds and keeps them in agreement: after it,
/// the stored voice state exists exactly when the update names a channel,
/// and then names that channel; the user is then in that channel's set and
/// in the guild's set, and in no other channel's set.
pub proof fn lemma_upsert_consistent(s: StoreView, g: u64, u: VoiceUpdate)
    requires
        voice_consistent(s, g, u.user_id),
    ensures
        upserted(s, g, u) is Ok,
        voice_consistent(upserted(s, g, u)->Ok_0, g, u.user_id),
        stored_voice_state(upserted(s, g, u)->Ok_0, g, u.user_id) is Ok,
        channel_of(stored_voice_state(upserted(s, g, u)->Ok_0, g, u.user_id)->Ok_0)
            == u.channel_id,
{
    let cur = channel_of(stored_voice_state(s, g, u.user_id)->Ok_0);
    let name = decimal(u.user_id as nat);
    let user = seq![name];
    let key = Key::UserVoiceState(g, u.user_id);
    let gk = Key::GuildVoiceStates(g);
    lemma_single_to_set(name);
    lemma_single_to_set("token"@);
    let s1 = run(s, transition_ops(g, cur, u));
    match u.channel_id {
        Some(c) => {
            let w0 = if u.token is None {
                seq![Op::HDel(key, seq!["token"@])]
            } else {
                Seq::empty()
            };
            let w1 = w0.push(Op::HSet(key, voice_fields(c, u)));
            let w2 = match cur {
                Some(old) => if old != c {
                    w1.push(Op::SRem(Key::ChannelVoiceStates(old), user))
                } else {
                    w1
                },
                None => w1,
            };
            let w3 = if cur == Some(c) {
                w2
            } else {
                w2.push(Op::SAdd(Key::ChannelVoiceStates(c), user))
            };
            let w4 = w3.push(Op::SAdd(gk, user));
            assert(transition_ops(g, cur, u) == w4);
            lemma_run_push(s, w0, Op::HSet(key, voice_fields(c, u)));
            if let Some(old) = cur {
                if old != c {
                    lemma_run_push(s, w1, Op::SRem(Key::ChannelVoiceStates(old), user));
                }
            }
            if cur != Some(c) {
                lemma_run_push(s, w2, Op::SAdd(Key::ChannelVoiceStates(c), user));
            }
            lemma_run_push(s, w3, Op::SAdd(gk, user));
            let r0 = run(s, w0);
            if u.token is None {
                assert(w0 =~= Seq::<Op>::empty().push(Op::HDel(key, seq!["token"@])));
                lemma_run_push(s, Seq::<Op>::empty(), Op::HDel(key, seq!["token"@]));
            }
            assert(forall|k: Key| k != key ==> r0.contains_key(k) == s.contains_key(k) && (
            s.contains_key(k) ==> #[trigger] r0[k] == s[k]));
            let base = match r0.contains_key(key) {
                true => match r0[key] {
                    Stored::Hash(h) => h,
                    _ => Map::empty(),
                },
                false => Map::empty(),
            };
            let r1 = run(s, w1);
            lemma_voice_hash(base, c, u);
            assert(r1 == r0.insert(key, Stored::Hash(with_fields(base, voice_fields(c, u)))));
            let r2 = run(s, w2);
            let r3 = run(s, w3);
            assert(s1 == apply(r3, Op::SAdd(gk, user)));
            assert(stored_voice_state(s1, g, u.user_id) == Ok::<Option<VoiceStateView>, Error>(
                Some(written_voice_state(base, c, u)),
            ));
            assert(members(s1, gk).contains(name));
            assert forall|x: u64| #[trigger]
                members_slot(s1, Key::ChannelVoiceStates(x)) is Some by {
                assert(members_slot(s, Key::ChannelVoiceStates(x)) is Some);
            }
            assert forall|x: u64| #[trigger]
                members(s1, Key::ChannelVoiceStates(x)).contains(name) <==> x == c by {
                let k = Key::ChannelVoiceStates(x);
                assert(members_slot(s, k) is Some);
                assert(members(r1, k) == members(s, k));
                if x == c {
                    if cur == Some(c) {
                        assert(members(s, k).contains(name));
                        assert(members(r3, k) == members(s, k));
                    } else {
                        assert(members(r3, k).contains(name));
                    }
                } else {
                    assert(members(r3, k) == members(r2, k));
                    match cur {
                        Some(old) => {
                            if x == old {
                                assert(!members(r2, k).contains(name));
                            } else {
                                assert(members(r2, k) == members(s, k));
                                assert(!members(s, k).contains(name));
                            }
                        },
                        None => {
                            assert(members(r2, k) == members(s, k));
                            assert(!members(s, k).contains(name));
                        },
                    }
                }
            }
        },
        None => {
            let w0 = match cur {
                Some(old) => seq![Op::SRem(Key::ChannelVoiceStates(old), user)],
                None => Seq::empty(),
            };
            let w1 = w0.push(Op::SRem(gk, user));
            let w2 = w1.push(Op::Del(key));
            assert(transition_ops(g, cur, u) == w2);
            lemma_run_push(s, w0, Op::SRem(gk, user));
            lemma_run_push(s, w1, Op::Del(key));
            let r0 = run(s, w0);
            if let Some(old) = cur {
                assert(w0 =~= Seq::<Op>::empty().push(Op::SRem(Key::ChannelVoiceStates(old), user)));
                lemma_run_push(s, Seq::<Op>::empty(), Op::SRem(Key::ChannelVoiceStates(old), user));
            } else {
                assert(r0 == s);
            }
            assert(!s1.contains_key(key));
            assert(stored_voice_state(s1, g, u.user_id) == Ok::<Option<VoiceStateView>, Error>(
                None,
            ));
            assert(members_slot(r0, gk) is Some);
            assert(!members(s1, gk).contains(name));
            assert forall|x: u64| #[trigger]
                members_slot(s1, Key::ChannelVoiceStates(x)) is Some by {
                assert(members_slot(s, Key::ChannelVoiceStates(x)) is Some);
            }
            assert forall|x: u64| !#[trigger]
                members(s1, Key::ChannelVoiceStates(x)).contains(name) by {
                let k = Key::ChannelVoiceStates(x);
                assert(members_slot(s, k) is Some);
                assert(members(s1, k) == members(r0, k));
                match cur {
                    Some(old) => {
                        if x != old {
                            assert(members(r0, k) == members(s, k));
                        }
                    },
                    None => {},
                }
            }
        },
    }
}

/// The writes that delete user `u`'s voice state in guild `g`: its hash,
/// and its place in the guild's voice set. The channel's voice set is not
/// touched: that needs the stored channel, which only a read gives.
pub open spec fn delete_ops(g: u64, u: u64) -> Seq<Op> {
    seq![
        Op::Del(Key::UserVoiceState(g, u)),
        Op::SRem(Key::GuildVoiceStates(g), seq![decimal(u as nat)]),
    ]
}

/// Plans deleting a user's voice state in a guild. Whether a voice state
/// existed is what the store answers to the removal from the guild's set.
pub fn delete_voice_state(guild_id: u64, user_id: u64) -> (r: Vec<Command>)
    ensures
        ops(r@) == delete_ops(guild_id, user_id),
{
    let mut plan: Vec<Command> = Vec::new();
    assert(ops(plan@) =~= Seq::empty());
    push_command(&mut plan, Command::Del(Key::UserVoiceState(guild_id, user_id)));
    push_command(
        &mut plan,
        Command::SRem(Key::GuildVoiceStates(guild_id), one(to_decimal(user_id))),
    );
    assert(ops(plan@) =~= delete_ops(guild_id, user_id));
    plan
}

/// The deletions of the voice-state hashes of the users `ids` of guild `g`.
pub open spec fn user_dels(g: u64, ids: Seq<u64>) -> Seq<Op>
    decreases ids.len(),
{
    if ids.len() == 0 {
        Seq::empty()
    } else {
        user_dels(g, ids.drop_last()).push(Op::Del(Key::UserVoiceState(g, ids.last())))
    }
}

/// The writes that delete every voice state of guild `g` whose users are
/// `ids`: each user's hash, then the guild's voice set.
pub open spec fn clear_ops(g: u64, ids: Seq<u64>) -> Seq<Op> {
    user_dels(g, ids).push(Op::Del(Key::GuildVoiceStates(g)))
}

/// Plans deleting all voice states of a guild, from a listing of the guild's
/// voice set. Gives the number of users listed with the writes; a listed
/// member that is no user id is an error.
pub fn delete_voice_states(
    guild_id: u64,
    listed: &Vec<String>,
) -> (r: Result<(u64, Vec<Command>), Error>)
    requires
        listed@.len() <= u64::MAX,
    ensures
        match r {
            Ok((n, plan)) => match parsed_ids(texts(listed@)) {
                Some(ids) => n == listed@.len() && ops(plan@) == clear_ops(guild_id, ids),
                None => false,
            },
            Err(e) => e == Error::ParseInt && parsed_ids(texts(listed@)) is None,
        },
{
    let ids = match parse_ids(listed) {
        Some(ids) => ids,
        None => return Err(Error::ParseInt),
    };
    proof {
        lemma_parsed_ids_len(texts(listed@), ids@);
    }
    let mut plan: Vec<Command> = Vec::new();
    let mut i: usize = 0;
    assert(ids@.subrange(0, 0) =~= Seq::<u64>::empty());
    assert(ops(plan@) =~= Seq::empty());
    while i < ids.len()
        invariant
            i <= ids@.len(),
            ops(plan@) == user_dels(guild_id, ids@.subrange(0, i as int)),
        decreases ids@.len() - i,
    {
        assert(ids@.subrange(0, i + 1).drop_last() =~= ids@.subrange(0, i as int));
        push_command(&mut plan, Command::Del(Key::UserVoiceState(guild_id, ids[i])));
        i = i + 1;
    }
    assert(ids@.subrange(0, ids@.len() as int) =~= ids@);
    push_command(&mut plan, Command::Del(Key::GuildVoiceStates(guild_id)));
    Ok((listed.len() as u64, plan))
}

proof fn lemma_parsed_ids_len(t: Seq<Seq<char>>, ids: Seq<u64>)
    requires
        parsed_ids(t) == Some(ids),
    ensures
        ids.len() == t.len(),
        forall|i: int| 0 <= i < t.len() ==> parsed_u64(#[trigger] t[i]) == Some(ids[i]),
    decreases t.len(),
{
    if t.len() > 0 {
        let rest = parsed_ids(t.drop_last())->Some_0;
        lemma_parsed_ids_len(t.drop_last(), rest);
        assert(ids == rest.push(parsed_u64(t.last())->Some_0));
        assert forall|i: int| 0 <= i < t.len() implies parsed_u64(#[trigger] t[i]) == Some(
            ids[i],
        ) by {
            if i < t.len() - 1 {
                assert(t[i] == t.drop_last()[i]);
            }
        }
    }
}

proof fn lemma_run_user_dels(s: StoreView, g: u64, ids: Seq<u64>)
    ensures
        forall|k: Key| #[trigger]
            run(s, user_dels(g, ids)).contains_key(k) <==> s.contains_key(k) && forall|i: int|
                0 <= i < ids.len() ==> k != Key::UserVoiceState(g, ids[i]),
        forall|k: Key| #[trigger]
            run(s, user_dels(g, ids)).contains_key(k) ==> run(s, user_dels(g, ids))[k] == s[k],
    decreases ids.len(),
{
    if ids.len() > 0 {
        lemma_run_user_dels(s, g, ids.drop_last());
        lemma_run_push(
            s,
            user_dels(g, ids.drop_last()),
            Op::Del(Key::UserVoiceState(g, ids.last())),
        );
        assert forall|k: Key| #[trigger]
            run(s, user_dels(g, ids)).contains_key(k) <==> s.contains_key(k) && forall|i: int|
                0 <= i < ids.len() ==> k != Key::UserVoiceState(g, ids[i]) by {
            if s.contains_key(k) && (forall|i: int|
                0 <= i < ids.len() - 1 ==> k != Key::UserVoiceState(g, ids.drop_last()[i])) && k
                != Key::UserVoiceState(g, ids.last()) {
                assert forall|i: int| 0 <= i < ids.len() implies k != Key::UserVoiceState(
                    g,
                    ids[i],
                ) by {
                    if i < ids.len() - 1 {
                        assert(ids[i] == ids.drop_last()[i]);
                    }
                }
            }
            if !(forall|i: int|
                0 <= i < ids.len() - 1 ==> k != Key::UserVoiceState(g, ids.drop_last()[i])) {
                let j = choose|i: int|
                    0 <= i < ids.len() - 1 && !(k != Key::UserVoiceState(g, ids.drop_last()[i]));
                assert(ids[j] == ids.drop_last()[j]);
            }
        }
    }
}

/// Deleting all voice states of a guild, from a listing of its voice set,
/// counts every user of the set once, and leaves behind neither the set nor
/// any voice-state hash of the guild, where every such hash belonged to a
/// user of the set.
pub proof fn lemma_delete_voice_states(
    s: StoreView,
    g: u64,
    listed: Seq<Seq<char>>,
    ids: Seq<u64>,
)
    requires
        listed.no_duplicates(),
        listed.to_set() == members(s, Key::GuildVoiceStates(g)),
        members_slot(s, Key::GuildVoiceStates(g)) is Some,
        parsed_ids(listed) == Some(ids),
        forall|u: u64| #[trigger]
            s.contains_key(Key::UserVoiceState(g, u)) ==> members(
                s,
                Key::GuildVoiceStates(g),
            ).contains(decimal(u as nat)),
    ensures
        ids.len() == members(s, Key::GuildVoiceStates(g)).len(),
        !run(s, clear_ops(g, ids)).contains_key(Key::GuildVoiceStates(g)),
        forall|u: u64| !#[trigger] run(s, clear_ops(g, ids)).contains_key(Key::UserVoiceState(g, u)),
{
    lemma_parsed_ids_len(listed, ids);
    listed.unique_seq_to_set();
    lemma_run_user_dels(s, g, ids);
    lemma_run_push(s, user_dels(g, ids), Op::Del(Key::GuildVoiceStates(g)));
    assert forall|u: u64| !#[trigger] run(s, clear_ops(g, ids)).contains_key(
        Key::UserVoiceState(g, u),
    ) by {
        if s.contains_key(Key::UserVoiceState(g, u)) {
            assert(listed.to_set().contains(decimal(u as nat)));
            let i = choose|i: int| 0 <= i < listed.len() && listed[i] == decimal(u as nat);
            lemma_parse_decimal(u);
            assert(ids[i] == u);
        }
    }
}

/// An upsert into a channel stores a voice state that reads back with the
/// update's channel id, session id, token and flags, exactly.
pub proof fn lemma_upsert_round_trip(s: StoreView, g: u64, u: VoiceUpdate)
    requires
        upserted(s, g, u) is Ok,
        u.channel_id is Some,
    ensures
        ({
            let v = stored_voice_state(upserted(s, g, u)->Ok_0, g, u.user_id);
            &&& v is Ok
            &&& v->Ok_0 is Some
            &&& v->Ok_0->Some_0.channel_id == u.channel_id->Some_0
            &&& v->Ok_0->Some_0.session_id == u.session_id@
            &&& v->Ok_0->Some_0.token == opt_text(u.token)
            &&& v->Ok_0->Some_0.mute == Some(u.mute)
            &&& v->Ok_0->Some_0.self_deaf == Some(u.self_deaf)
            &&& v->Ok_0->Some_0.self_mute == Some(u.self_mute)
            &&& v->Ok_0->Some_0.suppress == Some(u.suppress)
        }),
{
    let c = u.channel_id->Some_0;
    let s1 = upserted(s, g, u)->Ok_0;
    let cur = channel_of(stored_voice_state(s, g, u.user_id)->Ok_0);
    let user = seq![decimal(u.user_id as nat)];
    let key = Key::UserVoiceState(g, u.user_id);
    let gk = Key::GuildVoiceStates(g);
    lemma_single_to_set("token"@);
    let w0 = if u.token is None {
        seq![Op::HDel(key, seq!["token"@])]
    } else {
        Seq::empty()
    };
    let w1 = w0.push(Op::HSet(key, voice_fields(c, u)));
    let w2 = match cur {
        Some(old) => if old != c {
            w1.push(Op::SRem(Key::ChannelVoiceStates(old), user))
        } else {
            w1
        },
        None => w1,
    };
    let w3 = if cur == Some(c) {
        w2
    } else {
        w2.push(Op::SAdd(Key::ChannelVoiceStates(c), user))
    };
    let w4 = w3.push(Op::SAdd(gk, user));
    assert(transition_ops(g, cur, u) == w4);
    lemma_run_push(s, w0, Op::HSet(key, voice_fields(c, u)));
    if let Some(old) = cur {
        if old != c {
            lemma_run_push(s, w1, Op::SRem(Key::ChannelVoiceStates(old), user));
        }
    }
    if cur != Some(c) {
        lemma_run_push(s, w2, Op::SAdd(Key::ChannelVoiceStates(c), user));
    }
    lemma_run_push(s, w3, Op::SAdd(gk, user));
    let r0 = run(s, w0);
    if u.token is None {
        assert(w0 =~= Seq::<Op>::empty().push(Op::HDel(key, seq!["token"@])));
        lemma_run_push(s, Seq::<Op>::empty(), Op::HDel(key, seq!["token"@]));
    } else {
        assert(r0 == s);
    }
    let base = match r0.contains_key(key) {
        true => match r0[key] {
            Stored::Hash(h) => h,
            _ => Map::empty(),
        },
        false => Map::empty(),
    };
    if u.token is None {
        assert(!base.contains_key("token"@));
    }
    lemma_voice_hash(base, c, u);
    assert(s1[key] == Stored::Hash(with_fields(base, voice_fields(c, u))));
}

/// An empty store is consistent for every user: with the preservation law
/// above, the membership sets agree with the voice-state hashes after any
/// sequence of upserts that starts from an empty store.
pub proof fn lemma_empty_consistent(g: u64, u: u64)
    ensures
        voice_consistent(Map::empty(), g, u),
{
}

/// Whether `flat` is what a read of the hash at `k` gives: nothing where the
/// key is absent, and where it holds a hash, each of its fields once with its
/// value, in any order.
pub open spec fn lists_hash(s: StoreView, k: Key, flat: Seq<Seq<char>>) -> bool {
    if !s.contains_key(k) {
        flat.len() == 0
    } else {
        match s[k] {
            Stored::Hash(h) => flat.len() > 0 && flat.len() % 2 == 0 && pair_up(flat) == h,
            _ => false,
        }
    }
}

/// Decoding the read of a user's voice-state hash gives the voice state that
/// the store holds. So the plan that `upsert_voice_state` makes from that
/// read runs on the store as the upsert that the laws above speak of.
pub proof fn lemma_read_is_stored(s: StoreView, g: u64, u: VoiceUpdate, flat: Seq<Seq<char>>)
    requires
        lists_hash(s, Key::UserVoiceState(g, u.user_id), flat),
    ensures
        read_voice_state(flat) == stored_voice_state(s, g, u.user_id),
        read_voice_state(flat) is Ok ==> upserted(s, g, u) == Ok::<StoreView, Error>(
            run(s, transition_ops(g, channel_of(read_voice_state(flat)->Ok_0), u)),
        ),
{
}

} // verus!
