use vstd::prelude::*;
use crate::keys::Key;
use crate::number::{decimal, to_decimal};
use crate::store::{Command, Op, ops, text_pairs, texts};
use crate::voice::{push_command, push_field};

verus! {

/// The deletions of the channel key, or else the guild key, of each id of
/// `ids`, in order.
pub open spec fn dels(ids: Seq<u64>, channel: bool) -> Seq<Op>
    decreases ids.len(),
{
    if ids.len() == 0 {
        Seq::empty()
    } else {
        dels(ids.drop_last(), channel).push(
            Op::Del(
                if channel {
                    Key::Channel(ids.last())
                } else {
                    Key::Guild(ids.last())
                },
            ),
        )
    }
}

fn del_each(ids: &Vec<u64>, channel: bool) -> (r: Vec<Command>)
    ensures
        ops(r@) == dels(ids@, channel),
{
    let mut plan: Vec<Command> = Vec::new();
    let mut i: usize = 0;
    assert(ops(plan@) =~= dels(ids@.subrange(0, 0), channel));
    while i < ids.len()
        invariant
            i <= ids@.len(),
            ops(plan@) == dels(ids@.subrange(0, i as int), channel),
        decreases ids@.len() - i,
    {
        let k = if channel {
            Key::Channel(ids[i])
        } else {
            Key::Guild(ids[i])
        };
        push_command(&mut plan, Command::Del(k));
        assert(ids@.subrange(0, i + 1).drop_last() =~= ids@.subrange(0, i as int));
        i = i + 1;
    }
    assert(ids@.subrange(0, ids@.len() as int) =~= ids@);
    plan
}

/// Plans deleting a channel.
pub fn delete_channel(id: u64) -> (r: Command)
    ensures
        r@ == Op::Del(Key::Channel(id)),
{
    Command::Del(Key::Channel(id))
}

/// Plans deleting channels, one after another.
pub fn delete_channels(ids: &Vec<u64>) -> (r: Vec<Command>)
    ensures
        ops(r@) == dels(ids@, true),
{
    del_each(ids, true)
}

/// Plans deleting a guild's hash.
pub fn delete_guild(id: u64) -> (r: Command)
    ensures
        r@ == Op::Del(Key::Guild(id)),
{
    Command::Del(Key::Guild(id))
}

/// Plans deleting guilds' hashes, one after another.
pub fn delete_guilds(ids: &Vec<u64>) -> (r: Vec<Command>)
    ensures
        ops(r@) == dels(ids@, false),
{
    del_each(ids, false)
}

/// Plans storing a channel's serialized blob.
pub fn upsert_channel(id: u64, blob: String) -> (r: Command)
    ensures
        r@ == Op::Put(Key::Channel(id), blob@),
{
    Command::Put(Key::Channel(id), blob)
}

/// Plans storing the voice server of a user's voice session: its endpoint
/// and token fields.
pub fn upsert_voice_state_info(
    guild_id: u64,
    user_id: u64,
    endpoint: String,
    token: String,
) -> (r: Command)
    ensures
        r@ == Op::HSet(
            Key::UserVoiceState(guild_id, user_id),
            seq![("endpoint"@, endpoint@), ("token"@, token@)],
        ),
{
    let mut fields: Vec<(String, String)> = Vec::new();
    assert(text_pairs(fields@) =~= Seq::empty());
    let ghost e = endpoint@;
    let ghost t = token@;
    push_field(&mut fields, "endpoint", endpoint);
    push_field(&mut fields, "token", token);
    assert(text_pairs(fields@) =~= seq![("endpoint"@, e), ("token"@, t)]);
    Command::HSet(Key::UserVoiceState(guild_id, user_id), fields)
}

/// Plans pushing choice alternatives onto a guild's choice list; nothing to
/// push plans nothing.
pub fn push_choices(guild_id: u64, blobs: Vec<String>) -> (r: Vec<Command>)
    ensures
        ops(r@) == (if blobs@.len() == 0 {
            Seq::<Op>::empty()
        } else {
            seq![Op::LPush(Key::Choice(guild_id), texts(blobs@))]
        }),
{
    let mut plan: Vec<Command> = Vec::new();
    assert(ops(plan@) =~= Seq::empty());
    if blobs.len() > 0 {
        let ghost b = texts(blobs@);
        push_command(&mut plan, Command::LPush(Key::Choice(guild_id), blobs));
        assert(ops(plan@) =~= seq![Op::LPush(Key::Choice(guild_id), b)]);
    }
    plan
}

/// Plans deleting a guild's choice list.
pub fn delete_choices(guild_id: u64) -> (r: Command)
    ensures
        r@ == Op::Del(Key::Choice(guild_id)),
{
    Command::Del(Key::Choice(guild_id))
}

/// Plans setting the channel to join in a guild.
pub fn set_join(guild_id: u64, channel: u64) -> (r: Command)
    ensures
        r@ == Op::Put(Key::Join(guild_id), decimal(channel as nat)),
{
    Command::Put(Key::Join(guild_id), to_decimal(channel))
}

/// Plans deleting the channel to join in a guild.
pub fn delete_join(guild_id: u64) -> (r: Command)
    ensures
        r@ == Op::Del(Key::Join(guild_id)),
{
    Command::Del(Key::Join(guild_id))
}

} // verus!
