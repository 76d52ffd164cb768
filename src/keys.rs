use vstd::prelude::*;
use crate::number::{
    decimal, is_digit, lemma_decimal_digits, lemma_decimal_injective, push_decimal,
};

verus! {

/// The address of one entry of the store. Each variant renders to its own
/// key pattern; ids are written in decimal.
#[derive(Clone, Copy, Debug, PartialEq, Eq, Structural, Hash)]
pub enum Key {
    /// A channel, stored as one serialized blob. `ch:<id>`
    Channel(u64),
    /// The set of users in voice in a channel. `ch:<id>:v`
    ChannelVoiceStates(u64),
    /// The choice list of a guild. `c:<id>`
    Choice(u64),
    /// The channel to join in a guild. `j:<id>`
    Join(u64),
    /// The scalar fields of a guild. `g:<id>`
    Guild(u64),
    /// The set of channel ids of a guild. `g:<id>:c`
    GuildChannels(u64),
    /// The set of feature names of a guild. `g:<id>:f`
    GuildFeatures(u64),
    /// The set of member ids of a guild. `g:<id>:m`
    GuildMembers(u64),
    /// The player state of a guild. `g:<id>:lhs`
    GuildPlayer(u64),
    /// The set of role ids of a guild. `g:<id>:r`
    GuildRoles(u64),
    /// The set of users in voice in a guild. `g:<id>:v`
    GuildVoiceStates(u64),
    /// The queue of a guild. `queue:<id>`
    Queue(u64),
    /// The inbox of a shard. `sharder:to:<id>`
    SharderTo(u64),
    /// A member of a guild. `g:<guild_id>:m:<id>`
    Member(u64, u64),
    /// The set of role ids of a member. `g:<guild_id>:m:<id>:r`
    MemberRoles(u64, u64),
    /// A role of a guild. `g:<guild_id>:r:<id>`
    Role(u64, u64),
    /// The voice state of a user in a guild. `g:<guild_id>:v:<id>`
    UserVoiceState(u64, u64),
}

impl Key {
    /// The text of the key.
    pub open spec fn text(self) -> Seq<char> {
        match self {
            Key::Channel(id) => "ch:"@ + decimal(id as nat),
            Key::ChannelVoiceStates(id) => "ch:"@ + decimal(id as nat) + ":v"@,
            Key::Choice(id) => "c:"@ + decimal(id as nat),
            Key::Join(id) => "j:"@ + decimal(id as nat),
            Key::Guild(id) => "g:"@ + decimal(id as nat),
            Key::GuildChannels(id) => "g:"@ + decimal(id as nat) + ":c"@,
            Key::GuildFeatures(id) => "g:"@ + decimal(id as nat) + ":f"@,
            Key::GuildMembers(id) => "g:"@ + decimal(id as nat) + ":m"@,
            Key::GuildPlayer(id) => "g:"@ + decimal(id as nat) + ":lhs"@,
            Key::GuildRoles(id) => "g:"@ + decimal(id as nat) + ":r"@,
            Key::GuildVoiceStates(id) => "g:"@ + decimal(id as nat) + ":v"@,
            Key::Queue(id) => "queue:"@ + decimal(id as nat),
            Key::SharderTo(id) => "sharder:to:"@ + decimal(id as nat),
            Key::Member(a, b) => "g:"@ + decimal(a as nat) + ":m:"@ + decimal(b as nat),
            Key::MemberRoles(a, b) => "g:"@ + decimal(a as nat) + ":m:"@ + decimal(b as nat) + ":r"@,
            Key::Role(a, b) => "g:"@ + decimal(a as nat) + ":r:"@ + decimal(b as nat),
            Key::UserVoiceState(a, b) => "g:"@ + decimal(a as nat) + ":v:"@ + decimal(b as nat),
        }
    }

    /// Renders the key to its text.
    pub fn render(&self) -> (r: String)
        ensures
            r@ == self.text(),
    {
        match *self {
            Key::Channel(id) => channel(id),
            Key::ChannelVoiceStates(id) => channel_voice_states(id),
            Key::Choice(id) => choice(id),
            Key::Join(id) => join(id),
            Key::Guild(id) => guild(id),
            Key::GuildChannels(id) => guild_channels(id),
            Key::GuildFeatures(id) => guild_features(id),
            Key::GuildMembers(id) => guild_members(id),
            Key::GuildPlayer(id) => guild_player(id),
            Key::GuildRoles(id) => guild_roles(id),
            Key::GuildVoiceStates(id) => guild_voice_states(id),
            Key::Queue(id) => queue(id),
            Key::SharderTo(id) => sharder_to(id),
            Key::Member(a, b) => member(a, b),
            Key::MemberRoles(a, b) => member_roles(a, b),
            Key::Role(a, b) => role(a, b),
            Key::UserVoiceState(a, b) => user_voice_state(a, b),
        }
    }
}

/// The key of a channel, stored as one serialized blob.
pub fn channel(id: u64) -> (r: String)
    ensures
        r@ == Key::Channel(id).text(),
{
    let mut k = String::from_str("ch:");
    push_decimal(&mut k, id);
    k
}

/// The key of the set of users in voice in a channel.
pub fn channel_voice_states(id: u64) -> (r: String)
    ensures
        r@ == Key::ChannelVoiceStates(id).text(),
{
    let mut k = String::from_str("ch:");
    push_decimal(&mut k, id);
    k.append(":v");
    k
}

/// The key of the choice list of a guild.
pub fn choice(id: u64) -> (r: String)
    ensures
        r@ == Key::Choice(id).text(),
{
    let mut k = String::from_str("c:");
    push_decimal(&mut k, id);
    k
}

/// The key of the channel to join in a guild.
pub fn join(id: u64) -> (r: String)
    ensures
        r@ == Key::Join(id).text(),
{
    let mut k = String::from_str("j:");
    push_decimal(&mut k, id);
    k
}

/// The key of the scalar fields of a guild.
pub fn guild(id: u64) -> (r: String)
    ensures
        r@ == Key::Guild(id).text(),
{
    let mut k = String::from_str("g:");
    push_decimal(&mut k, id);
    k
}

/// The key of the set of channel ids of a guild.
pub fn guild_channels(id: u64) -> (r: String)
    ensures
        r@ == Key::GuildChannels(id).text(),
{
    let mut k = String::from_str("g:");
    push_decimal(&mut k, id);
    k.append(":c");
    k
}

/// The key of the set of feature names of a guild.
pub fn guild_features(id: u64) -> (r: String)
    ensures
        r@ == Key::GuildFeatures(id).text(),
{
    let mut k = String::from_str("g:");
    push_decimal(&mut k, id);
    k.append(":f");
    k
}

/// The key of the set of member ids of a guild.
pub fn guild_members(id: u64) -> (r: String)
    ensures
        r@ == Key::GuildMembers(id).text(),
{
    let mut k = String::from_str("g:");
    push_decimal(&mut k, id);
    k.append(":m");
    k
}

/// The key of the player state of a guild.
pub fn guild_player(id: u64) -> (r: String)
    ensures
        r@ == Key::GuildPlayer(id).text(),
{
    let mut k = String::from_str("g:");
    push_decimal(&mut k, id);
    k.append(":lhs");
    k
}

/// The key of the set of role ids of a guild.
pub fn guild_roles(id: u64) -> (r: String)
    ensures
        r@ == Key::GuildRoles(id).text(),
{
    let mut k = String::from_str("g:");
    push_decimal(&mut k, id);
    k.append(":r");
    k
}

/// The key of the set of users in voice in a guild.
pub fn guild_voice_states(id: u64) -> (r: String)
    ensures
        r@ == Key::GuildVoiceStates(id).text(),
{
    let mut k = String::from_str("g:");
    push_decimal(&mut k, id);
    k.append(":v");
    k
}

/// The key of the queue of a guild.
pub fn queue(id: u64) -> (r: String)
    ensures
        r@ == Key::Queue(id).text(),
{
    let mut k = String::from_str("queue:");
    push_decimal(&mut k, id);
    k
}

/// The key of the inbox of a shard.
pub fn sharder_to(id: u64) -> (r: String)
    ensures
        r@ == Key::SharderTo(id).text(),
{
    let mut k = String::from_str("sharder:to:");
    push_decimal(&mut k, id);
    k
}

/// The key of a member of a guild.
pub fn member(guild_id: u64, id: u64) -> (r: String)
    ensures
        r@ == Key::Member(guild_id, id).text(),
{
    let mut k = String::from_str("g:");
    push_decimal(&mut k, guild_id);
    k.append(":m:");
    push_decimal(&mut k, id);
    k
}

/// The key of the set of role ids of a member.
pub fn member_roles(guild_id: u64, id: u64) -> (r: String)
    ensures
        r@ == Key::MemberRoles(guild_id, id).text(),
{
    let mut k = String::from_str("g:");
    push_decimal(&mut k, guild_id);
    k.append(":m:");
    push_decimal(&mut k, id);
    k.append(":r");
    k
}

/// The key of a role of a guild.
pub fn role(guild_id: u64, id: u64) -> (r: String)
    ensures
        r@ == Key::Role(guild_id, id).text(),
{
    let mut k = String::from_str("g:");
    push_decimal(&mut k, guild_id);
    k.append(":r:");
    push_decimal(&mut k, id);
    k
}

/// The key of the voice state of a user in a guild.
pub fn user_voice_state(guild_id: u64, id: u64) -> (r: String)
    ensures
        r@ == Key::UserVoiceState(guild_id, id).text(),
{
    let mut k = String::from_str("g:");
    push_decimal(&mut k, guild_id);
    k.append(":v:");
    push_decimal(&mut k, id);
    k
}

/// The literal text that a key starts with.
spec fn head(k: Key) -> Seq<char> {
    match k {
            Key::Channel(_) => "ch:"@,
            Key::ChannelVoiceStates(_) => "ch:"@,
            Key::Choice(_) => "c:"@,
            Key::Join(_) => "j:"@,
            Key::Guild(_) => "g:"@,
            Key::GuildChannels(_) => "g:"@,
            Key::GuildFeatures(_) => "g:"@,
            Key::GuildMembers(_) => "g:"@,
            Key::GuildPlayer(_) => "g:"@,
            Key::GuildRoles(_) => "g:"@,
            Key::GuildVoiceStates(_) => "g:"@,
            Key::Queue(_) => "queue:"@,
            Key::SharderTo(_) => "sharder:to:"@,
            Key::Member(_, _) => "g:"@,
            Key::MemberRoles(_, _) => "g:"@,
            Key::Role(_, _) => "g:"@,
            Key::UserVoiceState(_, _) => "g:"@,
    }
}

/// The first id of a key.
spec fn first_id(k: Key) -> u64 {
    match k {
            Key::Channel(a) => a,
            Key::ChannelVoiceStates(a) => a,
            Key::Choice(a) => a,
            Key::Join(a) => a,
            Key::Guild(a) => a,
            Key::GuildChannels(a) => a,
            Key::GuildFeatures(a) => a,
            Key::GuildMembers(a) => a,
            Key::GuildPlayer(a) => a,
            Key::GuildRoles(a) => a,
            Key::GuildVoiceStates(a) => a,
            Key::Queue(a) => a,
            Key::SharderTo(a) => a,
            Key::Member(a, _) => a,
            Key::MemberRoles(a, _) => a,
            Key::Role(a, _) => a,
            Key::UserVoiceState(a, _) => a,
    }
}

/// What follows the first id in a key's text.
spec fn tail(k: Key) -> Seq<char> {
    match k {
            Key::Channel(_) => Seq::empty(),
            Key::ChannelVoiceStates(_) => ":v"@,
            Key::Choice(_) => Seq::empty(),
            Key::Join(_) => Seq::empty(),
            Key::Guild(_) => Seq::empty(),
            Key::GuildChannels(_) => ":c"@,
            Key::GuildFeatures(_) => ":f"@,
            Key::GuildMembers(_) => ":m"@,
            Key::GuildPlayer(_) => ":lhs"@,
            Key::GuildRoles(_) => ":r"@,
            Key::GuildVoiceStates(_) => ":v"@,
            Key::Queue(_) => Seq::empty(),
            Key::SharderTo(_) => Seq::empty(),
            Key::Member(_, b) => ":m:"@ + decimal(b as nat),
            Key::MemberRoles(_, b) => ":m:"@ + decimal(b as nat) + ":r"@,
            Key::Role(_, b) => ":r:"@ + decimal(b as nat),
            Key::UserVoiceState(_, b) => ":v:"@ + decimal(b as nat),
    }
}

proof fn lemma_text_parts(k: Key)
    ensures
        k.text() == head(k) + decimal(first_id(k) as nat) + tail(k),
        tail(k).len() == 0 || tail(k)[0] == ':',
        head(k).len() >= 2,
        head(k)[head(k).len() - 1] == ':',
{
    reveal_strlit(":c");
    reveal_strlit(":f");
    reveal_strlit(":lhs");
    reveal_strlit(":m");
    reveal_strlit(":m:");
    reveal_strlit(":r");
    reveal_strlit(":r:");
    reveal_strlit(":v");
    reveal_strlit(":v:");
    reveal_strlit("c:");
    reveal_strlit("ch:");
    reveal_strlit("g:");
    reveal_strlit("j:");
    reveal_strlit("queue:");
    reveal_strlit("sharder:to:");
    match k {
        Key::Member(a, b) => {
            assert(k.text() =~= head(k) + decimal(a as nat) + tail(k));
        },
        Key::MemberRoles(a, b) => {
            assert(k.text() =~= head(k) + decimal(a as nat) + tail(k));
        },
        Key::Role(a, b) => {
            assert(k.text() =~= head(k) + decimal(a as nat) + tail(k));
        },
        Key::UserVoiceState(a, b) => {
            assert(k.text() =~= head(k) + decimal(a as nat) + tail(k));
        },
        _ => {
            assert(k.text() =~= head(k) + decimal(first_id(k) as nat) + tail(k));
        },
    }
}

/// A run of digits followed by text that starts with no digit is split
/// from that text in one way only.
proof fn lemma_digit_split(p: Seq<char>, a: nat, r1: Seq<char>, b: nat, r2: Seq<char>)
    requires
        p + decimal(a) + r1 == p + decimal(b) + r2,
        r1.len() == 0 || !is_digit(r1[0]),
        r2.len() == 0 || !is_digit(r2[0]),
    ensures
        a == b,
        r1 == r2,
{
    lemma_decimal_digits(a);
    lemma_decimal_digits(b);
    let t = p + decimal(a) + r1;
    let u = p + decimal(b) + r2;
    let da = decimal(a);
    let db = decimal(b);
    let pl = p.len() as int;
    let la = da.len() as int;
    let lb = db.len() as int;
    if la < lb {
        assert(u[pl + la] == db[la]);
        assert(is_digit(db[la]));
        assert(t[pl + la] == r1[0]);
    } else if lb < la {
        assert(t[pl + lb] == da[lb]);
        assert(is_digit(da[lb]));
        assert(u[pl + lb] == r2[0]);
    }
    assert(da =~= t.subrange(pl, pl + la));
    assert(db =~= u.subrange(pl, pl + lb));
    assert(r1 =~= t.subrange(pl + la, t.len() as int));
    assert(r2 =~= u.subrange(pl + lb, u.len() as int));
    lemma_decimal_injective(a, b);
}

/// The second id of a key that has two; zero for the others.
spec fn second_id(k: Key) -> u64 {
    match k {
        Key::Member(_, b) => b,
        Key::MemberRoles(_, b) => b,
        Key::Role(_, b) => b,
        Key::UserVoiceState(_, b) => b,
        _ => 0,
    }
}

/// What follows the second id in the text of a key that has two.
spec fn rest(k: Key) -> Seq<char> {
    match k {
        Key::MemberRoles(_, _) => ":r"@,
        _ => Seq::empty(),
    }
}

/// The text between the two ids of a key that has two.
spec fn middle(k: Key) -> Seq<char> {
    match k {
        Key::Member(_, _) => ":m:"@,
        Key::MemberRoles(_, _) => ":m:"@,
        Key::Role(_, _) => ":r:"@,
        _ => ":v:"@,
    }
}

spec fn has_two_ids(k: Key) -> bool {
    k is Member || k is MemberRoles || k is Role || k is UserVoiceState
}

proof fn lemma_heads(k1: Key, k2: Key)
    requires
        k1.text() == k2.text(),
    ensures
        head(k1) == head(k2),
{
    reveal_strlit("ch:");
    reveal_strlit("c:");
    reveal_strlit("j:");
    reveal_strlit("g:");
    reveal_strlit("queue:");
    reveal_strlit("sharder:to:");
    reveal_strlit(":v");
    reveal_strlit(":c");
    reveal_strlit(":f");
    reveal_strlit(":m");
    reveal_strlit(":lhs");
    reveal_strlit(":r");
    reveal_strlit(":m:");
    reveal_strlit(":r:");
    reveal_strlit(":v:");
    lemma_text_parts(k1);
    lemma_text_parts(k2);
    let t = k1.text();
    assert(t[0] == head(k1)[0] && t[1] == head(k1)[1]);
    assert(t[0] == head(k2)[0] && t[1] == head(k2)[1]);
}

/// The lengths and telling characters of the head and tail of a key with
/// one id.
spec fn shape(k: Key) -> (nat, char, nat, char) {
    match k {
        Key::Channel(_) => (3, 'c', 0, ' '),
        Key::ChannelVoiceStates(_) => (3, 'c', 2, 'v'),
        Key::Choice(_) => (2, 'c', 0, ' '),
        Key::Join(_) => (2, 'j', 0, ' '),
        Key::Guild(_) => (2, 'g', 0, ' '),
        Key::GuildChannels(_) => (2, 'g', 2, 'c'),
        Key::GuildFeatures(_) => (2, 'g', 2, 'f'),
        Key::GuildMembers(_) => (2, 'g', 2, 'm'),
        Key::GuildPlayer(_) => (2, 'g', 4, 'l'),
        Key::GuildRoles(_) => (2, 'g', 2, 'r'),
        Key::GuildVoiceStates(_) => (2, 'g', 2, 'v'),
        Key::Queue(_) => (6, 'q', 0, ' '),
        Key::SharderTo(_) => (11, 's', 0, ' '),
        _ => (0, ' ', 0, ' '),
    }
}

proof fn lemma_shape(k: Key)
    requires
        !has_two_ids(k),
    ensures
        head(k).len() == shape(k).0,
        head(k)[0] == shape(k).1,
        tail(k).len() == shape(k).2,
        tail(k).len() >= 2 ==> tail(k)[1] == shape(k).3,
{
    reveal_strlit("ch:");
    reveal_strlit("c:");
    reveal_strlit("j:");
    reveal_strlit("g:");
    reveal_strlit("queue:");
    reveal_strlit("sharder:to:");
    reveal_strlit(":v");
    reveal_strlit(":c");
    reveal_strlit(":f");
    reveal_strlit(":m");
    reveal_strlit(":lhs");
    reveal_strlit(":r");
}

proof fn lemma_tails(k1: Key, k2: Key)
    requires
        head(k1) == head(k2),
        first_id(k1) == first_id(k2),
        tail(k1) == tail(k2),
    ensures
        k1 == k2,
{
    reveal_strlit("ch:");
    reveal_strlit("c:");
    reveal_strlit("j:");
    reveal_strlit("g:");
    reveal_strlit("queue:");
    reveal_strlit("sharder:to:");
    reveal_strlit(":v");
    reveal_strlit(":c");
    reveal_strlit(":f");
    reveal_strlit(":m");
    reveal_strlit(":lhs");
    reveal_strlit(":r");
    reveal_strlit(":m:");
    reveal_strlit(":r:");
    reveal_strlit(":v:");
    lemma_decimal_digits(second_id(k1) as nat);
    lemma_decimal_digits(second_id(k2) as nat);
    if has_two_ids(k1) {
        assert(tail(k1) =~= middle(k1) + decimal(second_id(k1) as nat) + rest(k1));
    }
    if has_two_ids(k2) {
        assert(tail(k2) =~= middle(k2) + decimal(second_id(k2) as nat) + rest(k2));
    }
    let t = tail(k1);
    assert(tail(k1).len() == tail(k2).len());
    assert(head(k1).len() == head(k2).len());
    assert(head(k1)[0] == head(k2)[0]);
    if t.len() >= 2 {
        assert(tail(k1)[1] == tail(k2)[1]);
    }
    if has_two_ids(k1) && has_two_ids(k2) {
        assert(middle(k1)[1] == tail(k1)[1]);
        assert(middle(k2)[1] == tail(k2)[1]);
        assert(middle(k1) == middle(k2));
        lemma_digit_split(
            middle(k1),
            second_id(k1) as nat,
            rest(k1),
            second_id(k2) as nat,
            rest(k2),
        );
        assert(rest(k1).len() == rest(k2).len());
    } else if has_two_ids(k1) {
        assert(tail(k1)[1] == middle(k1)[1]);
    } else if has_two_ids(k2) {
        assert(tail(k2)[1] == middle(k2)[1]);
    } else {
        lemma_shape(k1);
        lemma_shape(k2);
        assert(shape(k1) == shape(k2));
    }
}

/// Keys never share a text: two keys with the same text are the same key.
/// So the store, which addresses its entries by text, keeps what each key
/// addresses apart from what every other key addresses.
pub proof fn lemma_key_text_injective(k1: Key, k2: Key)
    requires
        k1.text() == k2.text(),
    ensures
        k1 == k2,
{
    lemma_text_parts(k1);
    lemma_text_parts(k2);
    lemma_heads(k1, k2);
    lemma_digit_split(head(k1), first_id(k1) as nat, tail(k1), first_id(k2) as nat, tail(k2));
    lemma_tails(k1, k2);
}

} // verus!
