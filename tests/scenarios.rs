use dabbot_cache::error::Error;
use dabbot_cache::guild::{upsert_guild, GuildSnapshot, MemberSnapshot, RoleSnapshot};
use dabbot_cache::keys::Key;
use dabbot_cache::model::{Guild, GuildSets, Member, Role, VoiceState};
use dabbot_cache::store::Command;
use dabbot_cache::voice::{
    delete_voice_state, delete_voice_states, upsert_voice_state, voice_state_transition,
    VoiceUpdate,
};
use dabbot_cache::writes::{
    delete_channels, delete_join, push_choices, set_join, upsert_voice_state_info,
};
use std::collections::{BTreeMap, BTreeSet};

#[derive(Clone, Debug, PartialEq)]
enum Entry {
    Text(String),
    Hash(BTreeMap<String, String>),
    Members(BTreeSet<String>),
    Items(Vec<String>),
}

/// A store that applies writes as the remote store does.
#[derive(Clone, Debug, Default, PartialEq)]
struct TestStore {
    keys: BTreeMap<String, Entry>,
}

impl TestStore {
    fn apply(&mut self, c: &Command) {
        match c {
            Command::Del(k) => {
                self.keys.remove(&k.render());
            },
            Command::HSet(k, fields) => {
                let key = k.render();
                let mut h = match self.keys.get(&key) {
                    None => BTreeMap::new(),
                    Some(Entry::Hash(h)) => h.clone(),
                    Some(_) => return,
                };
                if fields.is_empty() {
                    return;
                }
                for (n, v) in fields {
                    h.insert(n.clone(), v.clone());
                }
                self.keys.insert(key, Entry::Hash(h));
            },
            Command::HDel(k, names) => {
                let key = k.render();
                if let Some(Entry::Hash(h)) = self.keys.get_mut(&key) {
                    for n in names {
                        h.remove(n);
                    }
                    if h.is_empty() {
                        self.keys.remove(&key);
                    }
                }
            },
            Command::SAdd(k, items) => {
                let key = k.render();
                let mut m = match self.keys.get(&key) {
                    None => BTreeSet::new(),
                    Some(Entry::Members(m)) => m.clone(),
                    Some(_) => return,
                };
                if items.is_empty() {
                    return;
                }
                m.extend(items.iter().cloned());
                self.keys.insert(key, Entry::Members(m));
            },
            Command::SRem(k, items) => {
                let key = k.render();
                if let Some(Entry::Members(m)) = self.keys.get_mut(&key) {
                    for i in items {
                        m.remove(i);
                    }
                    if m.is_empty() {
                        self.keys.remove(&key);
                    }
                }
            },
            Command::Put(k, v) => {
                self.keys.insert(k.render(), Entry::Text(v.clone()));
            },
            Command::LPush(k, items) => {
                let key = k.render();
                let mut l = match self.keys.get(&key) {
                    None => vec![],
                    Some(Entry::Items(l)) => l.clone(),
                    Some(_) => return,
                };
                for i in items {
                    l.insert(0, i.clone());
                }
                self.keys.insert(key, Entry::Items(l));
            },
        }
    }

    fn run(&mut self, plan: &[Command]) {
        for c in plan {
            self.apply(c);
        }
    }

    fn hgetall(&self, k: Key) -> Vec<String> {
        match self.keys.get(&k.render()) {
            Some(Entry::Hash(h)) => h.iter().flat_map(|(n, v)| [n.clone(), v.clone()]).collect(),
            _ => vec![],
        }
    }

    fn smembers(&self, k: Key) -> Vec<String> {
        match self.keys.get(&k.render()) {
            Some(Entry::Members(m)) => m.iter().cloned().collect(),
            _ => vec![],
        }
    }

    fn has_member(&self, k: Key, m: &str) -> bool {
        self.smembers(k).iter().any(|x| x == m)
    }

    fn contains(&self, k: Key) -> bool {
        self.keys.contains_key(&k.render())
    }

    fn upsert(&mut self, guild_id: u64, update: &VoiceUpdate) -> Result<(), Error> {
        let current = self.hgetall(Key::UserVoiceState(guild_id, update.user_id));
        let plan = upsert_voice_state(guild_id, &current, update)?;
        self.run(&plan);
        Ok(())
    }

    fn voice_state(&self, guild_id: u64, user_id: u64) -> Result<Option<VoiceState>, Error> {
        VoiceState::from_reply(&self.hgetall(Key::UserVoiceState(guild_id, user_id)))
    }

    fn guild(&self, id: u64) -> Result<Guild, Error> {
        let sets = GuildSets {
            channels: self.smembers(Key::GuildChannels(id)),
            features: self.smembers(Key::GuildFeatures(id)),
            members: self.smembers(Key::GuildMembers(id)),
            roles: self.smembers(Key::GuildRoles(id)),
            voice_states: self.smembers(Key::GuildVoiceStates(id)),
        };
        Guild::from_replies(&self.hgetall(Key::Guild(id)), sets)
    }
}

fn update(user_id: u64, channel_id: Option<u64>, session: &str) -> VoiceUpdate {
    VoiceUpdate {
        user_id,
        channel_id,
        mute: false,
        self_deaf: false,
        self_mute: false,
        suppress: false,
        session_id: session.to_string(),
        token: None,
    }
}

fn joined_store() -> TestStore {
    let mut store = TestStore::default();
    store.upsert(1, &update(5, Some(4), "s1")).unwrap();
    store
}

#[test]
fn join_channel_reads_back() {
    let store = joined_store();
    let state = store.voice_state(1, 5).unwrap().unwrap();
    assert_eq!(state.channel_id, 4);
    assert_eq!(state.session_id, "s1");
    assert_eq!(state.token, None);
    assert!(store.has_member(Key::ChannelVoiceStates(4), "5"));
    assert!(store.has_member(Key::GuildVoiceStates(1), "5"));
}

#[test]
fn move_channel_moves_membership() {
    let mut store = joined_store();
    store.upsert(1, &update(5, Some(7), "s1")).unwrap();
    assert!(!store.has_member(Key::ChannelVoiceStates(4), "5"));
    assert!(store.has_member(Key::ChannelVoiceStates(7), "5"));
    assert!(store.has_member(Key::GuildVoiceStates(1), "5"));
    assert_eq!(store.voice_state(1, 5).unwrap().unwrap().channel_id, 7);
}

#[test]
fn leave_voice_clears_everything() {
    let mut store = joined_store();
    store.upsert(1, &update(5, Some(7), "s1")).unwrap();
    store.upsert(1, &update(5, None, "s1")).unwrap();
    assert!(!store.has_member(Key::ChannelVoiceStates(7), "5"));
    assert!(!store.has_member(Key::GuildVoiceStates(1), "5"));
    assert!(store.voice_state(1, 5).unwrap().is_none());
    assert!(!store.contains(Key::UserVoiceState(1, 5)));
}

fn snapshot() -> GuildSnapshot {
    GuildSnapshot {
        id: 1,
        name: "a guild".to_string(),
        owner_id: 5,
        region: "us-west".to_string(),
        afk_channel_id: Some(2),
        channels: vec![4],
        features: vec![],
        members: vec![MemberSnapshot {
            user_id: 5,
            deaf: false,
            mute: false,
            nick: None,
            joined_at: None,
            roles: vec![6],
        }],
        roles: vec![RoleSnapshot { id: 6, name: "a role".to_string(), colour: 1, permissions: 16777216 }],
        voice_states: vec![VoiceUpdate {
            user_id: 5,
            channel_id: Some(4),
            mute: true,
            self_deaf: true,
            self_mute: true,
            suppress: false,
            session_id: "a string".to_string(),
            token: None,
        }],
    }
}

#[test]
fn guild_snapshot_reads_back_members_and_voice() {
    let mut store = TestStore::default();
    store.run(&upsert_guild(&snapshot()));
    let guild = store.guild(1).unwrap();
    assert_eq!(guild.members, vec![5]);
    assert_eq!(guild.voice_states, vec![5]);
    assert!(store.has_member(Key::ChannelVoiceStates(4), "5"));
    assert_eq!(guild.afk_channel_id, Some(2));
    assert_eq!(guild.channels, vec![4]);
}

#[test]
fn guild_upsert_round_trips_every_entity() {
    let mut store = TestStore::default();
    store.run(&upsert_guild(&snapshot()));
    let guild = store.guild(1).unwrap();
    assert_eq!(guild.name, "a guild");
    assert_eq!(guild.owner_id, 5);
    assert_eq!(guild.region, "us-west");
    assert_eq!(guild.roles, vec![6]);
    assert!(guild.features.is_empty());
    let member = Member::from_replies(
        &store.hgetall(Key::Member(1, 5)),
        &store.smembers(Key::MemberRoles(1, 5)),
    )
    .unwrap();
    assert_eq!(member.user_id, 5);
    assert_eq!(member.roles, vec![6]);
    assert_eq!(member.nick, None);
    let role = Role::from_reply(&store.hgetall(Key::Role(1, 6))).unwrap();
    assert_eq!(role.name, "a role");
    assert_eq!(role.permissions, 16777216);
    assert_eq!(role.colour, Some(1));
    let state = store.voice_state(1, 5).unwrap().unwrap();
    assert_eq!(state.channel_id, 4);
    assert_eq!(state.session_id, "a string");
    assert_eq!(state.mute, Some(true));
    assert_eq!(state.suppress, Some(false));
}

#[test]
fn guild_upsert_replaces_sets() {
    let mut store = TestStore::default();
    let mut first = snapshot();
    first.members.push(MemberSnapshot {
        user_id: 9,
        deaf: true,
        mute: false,
        nick: Some("nine".to_string()),
        joined_at: Some("\"2019-01-01T00:00:00Z\"".to_string()),
        roles: vec![],
    });
    first.features = vec!["VIP".to_string()];
    first.afk_channel_id = Some(3);
    store.run(&upsert_guild(&first));
    assert_eq!(store.guild(1).unwrap().members, vec![5, 9]);
    let nine = Member::from_replies(&store.hgetall(Key::Member(1, 9)), &vec![]).unwrap();
    assert_eq!(nine.nick.as_deref(), Some("nine"));
    assert!(nine.deaf);

    let mut second = snapshot();
    second.afk_channel_id = None;
    store.run(&upsert_guild(&second));
    let guild = store.guild(1).unwrap();
    assert_eq!(guild.members, vec![5]);
    assert!(guild.features.is_empty());
    assert_eq!(guild.afk_channel_id, None);
}

#[test]
fn guild_upsert_groups_voice_by_channel() {
    let mut snap = snapshot();
    snap.voice_states.push(update(8, Some(4), "x"));
    snap.voice_states.push(update(9, Some(10), "y"));
    snap.voice_states.push(update(11, None, "z"));
    let mut store = TestStore::default();
    store.run(&upsert_guild(&snap));
    assert_eq!(store.smembers(Key::ChannelVoiceStates(4)), vec!["5", "8"]);
    assert_eq!(store.smembers(Key::ChannelVoiceStates(10)), vec!["9"]);
    assert_eq!(store.smembers(Key::GuildVoiceStates(1)), vec!["5", "8", "9"]);
    assert!(!store.contains(Key::UserVoiceState(1, 11)));
    let sets_replaced = upsert_guild(&snap)
        .iter()
        .filter(|c| matches!(c, Command::Del(Key::ChannelVoiceStates(_))))
        .count();
    assert_eq!(sets_replaced, 2);
}

#[test]
fn upsert_twice_is_idempotent() {
    let mut u = update(5, Some(4), "s1");
    u.token = Some("t".to_string());
    u.mute = true;
    let mut once = TestStore::default();
    once.upsert(1, &u).unwrap();
    let mut twice = once.clone();
    twice.upsert(1, &u).unwrap();
    assert_eq!(once, twice);

    let leave = update(5, None, "s1");
    once.upsert(1, &leave).unwrap();
    let mut again = once.clone();
    again.upsert(1, &leave).unwrap();
    assert_eq!(once, again);
}

#[test]
fn memberships_follow_the_last_channel() {
    let mut store = TestStore::default();
    for channel in [Some(4), Some(7), Some(7), Some(4), None, Some(9)] {
        store.upsert(1, &update(5, channel, "s")).unwrap();
        for x in [4u64, 7, 9] {
            assert_eq!(store.has_member(Key::ChannelVoiceStates(x), "5"), channel == Some(x));
        }
        assert_eq!(store.has_member(Key::GuildVoiceStates(1), "5"), channel.is_some());
        assert_eq!(store.contains(Key::UserVoiceState(1, 5)), channel.is_some());
    }
}

#[test]
fn upsert_round_trips_voice_fields() {
    let mut store = TestStore::default();
    let mut u = update(5, Some(500000000000000000), "946f395aa3c194fda2aa7baa2e402d2b");
    u.token = Some("450d2eedffbdad13".to_string());
    u.self_deaf = true;
    store.upsert(381880193251409931, &u).unwrap();
    let state = store.voice_state(381880193251409931, 5).unwrap().unwrap();
    assert_eq!(state.channel_id, 500000000000000000);
    assert_eq!(state.session_id, "946f395aa3c194fda2aa7baa2e402d2b");
    assert_eq!(state.token.as_deref(), Some("450d2eedffbdad13"));
    assert_eq!(state.self_deaf, Some(true));
    assert_eq!(state.self_mute, Some(false));

    u.token = None;
    store.upsert(381880193251409931, &u).unwrap();
    let state = store.voice_state(381880193251409931, 5).unwrap().unwrap();
    assert_eq!(state.token, None);
}

#[test]
fn never_written_reads_as_not_found() {
    let store = TestStore::default();
    assert!(store.voice_state(1, 5).unwrap().is_none());
    assert_eq!(store.guild(1).unwrap_err(), Error::NotFound);
}

#[test]
fn upsert_over_malformed_state_fails() {
    let current = vec!["channel_id".to_string(), "four".to_string(), "session_id".to_string(), "s".to_string()];
    let err = upsert_voice_state(1, &current, &update(5, Some(4), "s")).unwrap_err();
    assert_eq!(err, Error::Materialize);
}

#[test]
fn bulk_delete_counts_and_clears() {
    let mut store = TestStore::default();
    for user in [5u64, 6, 7] {
        store.upsert(1, &update(user, Some(4), "s")).unwrap();
    }
    store.upsert(2, &update(5, Some(8), "s")).unwrap();
    let listed = store.smembers(Key::GuildVoiceStates(1));
    let (count, plan) = delete_voice_states(1, &listed).unwrap();
    assert_eq!(count, 3);
    store.run(&plan);
    assert!(!store.contains(Key::GuildVoiceStates(1)));
    for user in [5u64, 6, 7] {
        assert!(!store.contains(Key::UserVoiceState(1, user)));
    }
    assert!(store.contains(Key::UserVoiceState(2, 5)));
    assert!(store.contains(Key::ChannelVoiceStates(4)));

    let (count, plan) = delete_voice_states(3, &vec![]).unwrap();
    assert_eq!(count, 0);
    assert_eq!(plan.len(), 1);
}

#[test]
fn bulk_delete_with_bad_member_is_a_parse_error() {
    let err = delete_voice_states(1, &vec!["5".to_string(), "five".to_string()]).unwrap_err();
    assert_eq!(err, Error::ParseInt);
}

#[test]
fn single_delete_leaves_channel_set() {
    let mut store = joined_store();
    store.run(&delete_voice_state(1, 5));
    assert!(!store.contains(Key::UserVoiceState(1, 5)));
    assert!(!store.has_member(Key::GuildVoiceStates(1), "5"));
    assert!(store.has_member(Key::ChannelVoiceStates(4), "5"));
}

#[test]
fn transition_plans_only_needed_writes() {
    let same = voice_state_transition(1, Some(4), &update(5, Some(4), "s"));
    assert!(!same.iter().any(|c| matches!(c, Command::SAdd(Key::ChannelVoiceStates(_), _))));
    assert!(!same.iter().any(|c| matches!(c, Command::SRem(..))));
    let moved = voice_state_transition(1, Some(4), &update(5, Some(7), "s"));
    assert!(moved.iter().any(|c| matches!(c, Command::SRem(Key::ChannelVoiceStates(4), m) if m == &vec!["5".to_string()])));
    assert!(moved.iter().any(|c| matches!(c, Command::SAdd(Key::ChannelVoiceStates(7), _))));
}

#[test]
fn simple_writes() {
    let mut store = joined_store();
    store.apply(&upsert_voice_state_info(1, 5, "voice.example".to_string(), "tok".to_string()));
    let state = store.voice_state(1, 5).unwrap().unwrap();
    assert_eq!(state.endpoint.as_deref(), Some("voice.example"));
    assert_eq!(state.token.as_deref(), Some("tok"));
    assert_eq!(state.channel_id, 4);

    store.apply(&set_join(1, 381880193700069377));
    assert_eq!(store.keys.get("j:1"), Some(&Entry::Text("381880193700069377".to_string())));
    store.apply(&delete_join(1));
    assert!(!store.contains(Key::Join(1)));

    store.run(&push_choices(1, vec!["a".to_string(), "b".to_string()]));
    assert_eq!(store.keys.get("c:1"), Some(&Entry::Items(vec!["b".to_string(), "a".to_string()])));
    assert!(push_choices(1, vec![]).is_empty());

    store.apply(&Command::Put(Key::Channel(4), "{}".to_string()));
    store.run(&delete_channels(&vec![4, 5]));
    assert!(!store.contains(Key::Channel(4)));
}

#[test]
fn retrieval() {
    let guild = GuildSnapshot {
        id: 1,
        name: "a guild".to_string(),
        owner_id: 5,
        region: "us-west".to_string(),
        afk_channel_id: Some(2),
        channels: vec![4],
        features: vec![],
        members: vec![MemberSnapshot {
            user_id: 5,
            deaf: false,
            mute: false,
            nick: None,
            joined_at: None,
            roles: vec![6],
        }],
        roles: vec![RoleSnapshot {
            id: 6,
            name: "a role".to_string(),
            colour: 1,
            permissions: 1 << 24,
        }],
        voice_states: vec![VoiceUpdate {
            user_id: 5,
            channel_id: Some(4),
            mute: true,
            self_deaf: true,
            self_mute: true,
            suppress: false,
            session_id: "a string".to_string(),
            token: None,
        }],
    };
    let mut client = TestStore::default();
    client.run(&upsert_guild(&guild));
    let guild = client.guild(1).unwrap();

    assert_eq!(guild.afk_channel_id, Some(2));
    assert_eq!(guild.channels.iter().copied().collect::<BTreeSet<u64>>(), {
        let mut set = BTreeSet::new();
        set.insert(4);
        set
    });

    client.apply(&dabbot_cache::writes::delete_guild(1));
    assert_eq!(client.guild(1).unwrap_err(), Error::NotFound);
}
