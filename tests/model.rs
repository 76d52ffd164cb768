use dabbot_cache::error::Error;
use dabbot_cache::model::{
    ids_from_listing, voice_states_from_replies, Guild, GuildSets, LoopMode, Member,
    PermissionOverwrite, Role, User, VoiceState,
};

fn strings(items: &[&str]) -> Vec<String> {
    items.iter().map(|s| s.to_string()).collect()
}

fn no_sets() -> GuildSets {
    GuildSets {
        channels: vec![],
        features: vec![],
        members: vec![],
        roles: vec![],
        voice_states: vec![],
    }
}

#[test]
fn test_role() {
    let value = strings(&["name", "test", "permissions", "8"]);
    assert!(Role::from_reply(&value).is_ok());

    let value = strings(&["name", "0123456", "permissions", "8"]);
    assert!(Role::from_reply(&value).is_ok());
}

#[test]
fn role_fields_read_back_exactly() {
    let value = strings(&["name", "0123456", "permissions", "8", "colour", "1"]);
    let role = Role::from_reply(&value).unwrap();
    assert_eq!(role.name, "0123456");
    assert_eq!(role.permissions, 8);
    assert_eq!(role.colour, Some(1));
}

#[test]
fn role_with_bad_permissions_is_a_shape_error() {
    let value = strings(&["name", "x", "permissions", "all"]);
    assert_eq!(Role::from_reply(&value).unwrap_err(), Error::Materialize);
}

#[test]
fn test_voice_state() {
    let value = strings(&[
        "channel_id",
        "500000000000000000",
        "session_id",
        "946f395aa3c194fda2aa7baa2e402d2b",
        "token",
        "450d2eedffbdad13",
    ]);

    assert!(VoiceState::from_reply(&value).is_ok());
}

#[test]
fn test_voice_state_numeric_fields() {
    let value = strings(&[
        "channel_id",
        "500000000000000000",
        "session_id",
        "946f395aa3c194fda2aa7baa2e402d2b",
    ]);

    assert!(VoiceState::from_reply(&value).is_ok());

    let value = strings(&[
        "channel_id",
        "500000000000000000",
        "session_id",
        "11111111111111111111111111111111",
    ]);

    assert!(VoiceState::from_reply(&value).is_ok());
}

#[test]
fn voice_state_numeric_session_stays_text() {
    let value = strings(&[
        "channel_id",
        "500000000000000000",
        "session_id",
        "11111111111111111111111111111111",
    ]);
    let state = VoiceState::from_reply(&value).unwrap().unwrap();
    assert_eq!(state.channel_id, 500000000000000000);
    assert_eq!(state.session_id, "11111111111111111111111111111111");
    assert_eq!(state.token, None);
    assert_eq!(state.mute, None);
}

#[test]
fn voice_state_later_pair_wins() {
    let value = strings(&["channel_id", "4", "session_id", "a", "channel_id", "7"]);
    let state = VoiceState::from_reply(&value).unwrap().unwrap();
    assert_eq!(state.channel_id, 7);
}

#[test]
fn voice_state_empty_reply_is_absent() {
    assert!(VoiceState::from_reply(&vec![]).unwrap().is_none());
}

#[test]
fn voice_state_odd_reply_is_a_shape_error() {
    let value = strings(&["channel_id", "4", "session_id"]);
    assert_eq!(VoiceState::from_reply(&value).unwrap_err(), Error::Materialize);
}

#[test]
fn voice_state_without_channel_is_a_shape_error() {
    let value = strings(&["session_id", "s1"]);
    assert_eq!(VoiceState::from_reply(&value).unwrap_err(), Error::Materialize);
}

#[test]
fn voice_state_bad_flag_is_a_shape_error() {
    let value = strings(&["channel_id", "4", "session_id", "s1", "mute", "yes"]);
    assert_eq!(VoiceState::from_reply(&value).unwrap_err(), Error::Materialize);
}

#[test]
fn member_reads_with_roles() {
    let value = strings(&["deaf", "0", "mute", "1", "user_id", "5", "nick", "n"]);
    let member = Member::from_replies(&value, &strings(&["6", "7"])).unwrap();
    assert_eq!(member.user_id, 5);
    assert!(!member.deaf);
    assert!(member.mute);
    assert_eq!(member.nick.as_deref(), Some("n"));
    assert_eq!(member.joined_at, None);
    assert_eq!(member.roles, vec![6, 7]);
}

#[test]
fn member_with_bad_role_is_a_shape_error() {
    let value = strings(&["deaf", "0", "mute", "1", "user_id", "5"]);
    let err = Member::from_replies(&value, &strings(&["six"])).unwrap_err();
    assert_eq!(err, Error::Materialize);
}

#[test]
fn guild_absent_is_not_found() {
    assert_eq!(Guild::from_replies(&vec![], no_sets()).unwrap_err(), Error::NotFound);
    assert_eq!(Role::from_reply(&vec![]).unwrap_err(), Error::NotFound);
    let err = Member::from_replies(&vec![], &vec![]).unwrap_err();
    assert_eq!(err, Error::NotFound);
}

#[test]
fn guild_reads_hash_and_sets() {
    let value = strings(&["name", "a guild", "owner_id", "5", "region", "us-west", "afk_channel_id", "2"]);
    let sets = GuildSets {
        channels: strings(&["4"]),
        features: strings(&["VIP"]),
        members: strings(&["5"]),
        roles: strings(&["6"]),
        voice_states: strings(&["5"]),
    };
    let guild = Guild::from_replies(&value, sets).unwrap();
    assert_eq!(guild.name, "a guild");
    assert_eq!(guild.owner_id, 5);
    assert_eq!(guild.region, "us-west");
    assert_eq!(guild.afk_channel_id, Some(2));
    assert_eq!(guild.channels, vec![4]);
    assert_eq!(guild.features, strings(&["VIP"]));
    assert_eq!(guild.members, vec![5]);
    assert_eq!(guild.roles, vec![6]);
    assert_eq!(guild.voice_states, vec![5]);
}

#[test]
fn guild_with_bad_member_is_a_shape_error() {
    let value = strings(&["name", "g", "owner_id", "5", "region", "r"]);
    let mut sets = no_sets();
    sets.members = strings(&["5x"]);
    assert_eq!(Guild::from_replies(&value, sets).unwrap_err(), Error::Materialize);
}

#[test]
fn listing_with_bad_id_is_a_parse_error() {
    assert_eq!(ids_from_listing(&strings(&["1", "2"])).unwrap(), vec![1, 2]);
    assert_eq!(ids_from_listing(&strings(&["1", "x"])).unwrap_err(), Error::ParseInt);
}

#[test]
fn voice_states_missing_hash_is_an_error() {
    let ids = vec![5, 6];
    let replies = vec![strings(&["channel_id", "4", "session_id", "s"]), vec![]];
    let err = voice_states_from_replies(&ids, &replies).unwrap_err();
    assert_eq!(err, Error::NotFound);

    let replies = vec![
        strings(&["channel_id", "4", "session_id", "s"]),
        strings(&["channel_id", "7", "session_id", "t"]),
    ];
    let states = voice_states_from_replies(&ids, &replies).unwrap();
    assert_eq!(states.len(), 2);
    assert_eq!(states[0].0, 5);
    assert_eq!(states[1].1.channel_id, 7);
}

#[test]
fn test_loop_mode() {
    let value = String::from(LoopMode::LOOPING_QUEUE_ENCODED);
    assert!(LoopMode::try_from(value).is_ok());

    let value = String::from(LoopMode::LOOPING_SONG_ENCODED);
    assert!(LoopMode::try_from(value).is_ok());

    let value = String::from(LoopMode::LOOPING_OFF_ENCODED);
    assert!(LoopMode::try_from(value).is_ok());

    let value = String::from("error me pls");
    let value = LoopMode::try_from(value);
    match value {
        Ok(_) => panic!("didn't error"),
        Err(_) => {},
    }
}

#[test]
fn loop_mode_codes_round_trip() {
    for mode in [LoopMode::Queue, LoopMode::Song, LoopMode::Off] {
        assert_eq!(LoopMode::try_from(mode.encode()).unwrap(), mode);
    }
    assert_eq!(LoopMode::Song.encode(), "LS");
    assert_eq!(LoopMode::try_from(String::from("lq")).unwrap_err(), Error::InvalidLoopMode);
}

#[test]
fn error_descriptions() {
    assert_eq!(Error::InvalidLoopMode.description(), "Invalid loop mode");
    assert_eq!(Error::NotFound.description(), "none");
}

#[test]
fn user_reads_back() {
    let value = strings(&["bot", "0", "discriminator", "0001", "id", "5", "name", "hello"]);
    let user = User::from_reply(&value).unwrap();
    assert!(!user.bot);
    assert_eq!(user.discriminator, 1);
    assert_eq!(user.id, 5);
    assert_eq!(user.name, "hello");
    let value = strings(&["bot", "0", "discriminator", "65536", "id", "5", "name", "hello"]);
    assert_eq!(User::from_reply(&value).unwrap_err(), Error::Materialize);
}

#[test]
fn permission_overwrite_reads_back() {
    let value = strings(&["allow", "8", "deny", "2048", "kind", "1"]);
    let o = PermissionOverwrite::from_reply(&value).unwrap();
    assert_eq!(o, PermissionOverwrite { allow: 8, deny: 2048, kind: 1 });
    let value = strings(&["allow", "8", "deny", "2048"]);
    assert_eq!(PermissionOverwrite::from_reply(&value).unwrap_err(), Error::Materialize);
}
