use dabbot_cache::keys::{
    channel, channel_voice_states, choice, guild, guild_channels, guild_features, guild_members,
    guild_player, guild_roles, guild_voice_states, join, member, member_roles, queue, role,
    sharder_to, user_voice_state, Key,
};
use dabbot_cache::number::{parse_u64, to_decimal};

#[test]
fn test_channel() {
    assert_eq!(channel(381880193700069377), "ch:381880193700069377");
}

#[test]
fn test_channel_voice_states() {
    assert_eq!(channel_voice_states(2), "ch:2:v");
}

#[test]
fn test_choice() {
    assert_eq!(choice(272410239947767808), "c:272410239947767808");
}

#[test]
fn test_guild() {
    assert_eq!(guild(381880193251409931), "g:381880193251409931");
}

#[test]
fn test_guild_channels() {
    assert_eq!(guild_channels(2), "g:2:c");
}

#[test]
fn test_guild_features() {
    assert_eq!(guild_features(2), "g:2:f");
}

#[test]
fn test_guild_members() {
    assert_eq!(guild_members(3), "g:3:m");
}

#[test]
fn test_guild_player() {
    assert_eq!(guild_player(4), "g:4:lhs");
}

#[test]
fn test_guild_roles() {
    assert_eq!(guild_roles(3), "g:3:r");
}

#[test]
fn test_guild_voice_states() {
    assert_eq!(guild_voice_states(1), "g:1:v");
}

#[test]
fn test_queue() {
    assert_eq!(queue(272410239947767808), "queue:272410239947767808");
}

#[test]
fn test_member() {
    assert_eq!(member(1, 2), "g:1:m:2");
}

#[test]
fn test_member_roles() {
    assert_eq!(member_roles(1, 2), "g:1:m:2:r");
}

#[test]
fn test_user_voice_state() {
    assert_eq!(user_voice_state(1, 2), "g:1:v:2");
    assert_eq!(
        user_voice_state(381880193251409931, 114941315417899012),
        "g:381880193251409931:v:114941315417899012",
    );
}

#[test]
fn test_join() {
    assert_eq!(join(272410239947767808), "j:272410239947767808");
}

#[test]
fn test_sharder_to() {
    assert_eq!(sharder_to(1337), "sharder:to:1337");
}

#[test]
fn role_key() {
    assert_eq!(role(1, 6), "g:1:r:6");
}

#[test]
fn render_matches_key_functions() {
    assert_eq!(Key::UserVoiceState(1, 5).render(), user_voice_state(1, 5));
    assert_eq!(Key::ChannelVoiceStates(4).render(), "ch:4:v");
    assert_eq!(Key::GuildVoiceStates(1).render(), "g:1:v");
    assert_eq!(Key::MemberRoles(7, 0).render(), "g:7:m:0:r");
    assert_eq!(Key::Queue(0).render(), "queue:0");
}

#[test]
fn decimal_edges() {
    assert_eq!(to_decimal(0), "0");
    assert_eq!(to_decimal(10), "10");
    assert_eq!(to_decimal(u64::MAX), "18446744073709551615");
    assert_eq!(channel(u64::MAX), "ch:18446744073709551615");
}

#[test]
fn parse_edges() {
    assert_eq!(parse_u64("18446744073709551615"), Some(u64::MAX));
    assert_eq!(parse_u64("18446744073709551616"), None);
    assert_eq!(parse_u64("99999999999999999999"), None);
    assert_eq!(parse_u64("007"), Some(7));
    assert_eq!(parse_u64("0"), Some(0));
    assert_eq!(parse_u64(""), None);
    assert_eq!(parse_u64("+5"), None);
    assert_eq!(parse_u64("-5"), None);
    assert_eq!(parse_u64("12a"), None);
}

#[test]
fn parse_inverts_decimal() {
    for n in [0u64, 1, 9, 10, 99, 100, 500000000000000000, u64::MAX - 1, u64::MAX] {
        assert_eq!(parse_u64(&to_decimal(n)), Some(n));
    }
}

#[test]
fn distinct_keys_render_apart() {
    let keys = [
        Key::Channel(4),
        Key::ChannelVoiceStates(4),
        Key::Choice(4),
        Key::Join(4),
        Key::Guild(4),
        Key::GuildChannels(4),
        Key::GuildFeatures(4),
        Key::GuildMembers(4),
        Key::GuildPlayer(4),
        Key::GuildRoles(4),
        Key::GuildVoiceStates(4),
        Key::Queue(4),
        Key::SharderTo(4),
        Key::Member(4, 1),
        Key::MemberRoles(4, 1),
        Key::Role(4, 1),
        Key::UserVoiceState(4, 1),
        Key::Member(41, 1),
        Key::Member(4, 11),
    ];
    for (i, a) in keys.iter().enumerate() {
        for (j, b) in keys.iter().enumerate() {
            assert_eq!(a.render() == b.render(), i == j);
        }
    }
}
