use vstd::prelude::*;
use crate::keys::Key;

verus! {

/// What one key of the store holds. Like the store itself, a hash or a set
/// never stands empty: removing its last field or member removes the key.
pub enum Stored {
    /// A plain string value.
    Text(Seq<char>),
    /// A hash of field names to values.
    Hash(Map<Seq<char>, Seq<char>>),
    /// A set of members.
    Members(Set<Seq<char>>),
    /// A list, head first.
    Items(Seq<Seq<char>>),
}

/// The whole store: what each present key holds. The store addresses its
/// entries by key text; no two keys share a text (`lemma_key_text_injective`).
pub type StoreView = Map<Key, Stored>;

/// A write issued against the store.
///
/// The cache submits writes without waiting for an acknowledgment: the
/// caller gets no failure signal for them. The store applies the writes of
/// one connection in the order in which they were issued, one key at a time;
/// nothing makes a sequence of them atomic.
#[derive(Clone, Debug)]
pub enum Command {
    /// Removes a key, whatever it holds.
    Del(Key),
    /// Sets fields of a hash, creating the hash if the key is absent.
    HSet(Key, Vec<(String, String)>),
    /// Removes fields of a hash.
    HDel(Key, Vec<String>),
    /// Adds members to a set, creating the set if the key is absent.
    SAdd(Key, Vec<String>),
    /// Removes members from a set.
    SRem(Key, Vec<String>),
    /// Sets a plain string value, replacing whatever the key held.
    Put(Key, String),
    /// Pushes items one by one onto the head of a list.
    LPush(Key, Vec<String>),
}

/// A write, over mathematical values.
pub enum Op {
    Del(Key),
    HSet(Key, Seq<(Seq<char>, Seq<char>)>),
    HDel(Key, Seq<Seq<char>>),
    SAdd(Key, Seq<Seq<char>>),
    SRem(Key, Seq<Seq<char>>),
    Put(Key, Seq<char>),
    LPush(Key, Seq<Seq<char>>),
}

/// The text of each string.
pub open spec fn texts(v: Seq<String>) -> Seq<Seq<char>> {
    v.map_values(|s: String| s@)
}

/// The text of each field name and value.
pub open spec fn text_pairs(v: Seq<(String, String)>) -> Seq<(Seq<char>, Seq<char>)> {
    v.map_values(|p: (String, String)| (p.0@, p.1@))
}

impl View for Command {
    type V = Op;

    open spec fn view(&self) -> Op {
        match self {
            Command::Del(k) => Op::Del(*k),
            Command::HSet(k, f) => Op::HSet(*k, text_pairs(f@)),
            Command::HDel(k, f) => Op::HDel(*k, texts(f@)),
            Command::SAdd(k, m) => Op::SAdd(*k, texts(m@)),
            Command::SRem(k, m) => Op::SRem(*k, texts(m@)),
            Command::Put(k, v) => Op::Put(*k, v@),
            Command::LPush(k, v) => Op::LPush(*k, texts(v@)),
        }
    }
}

/// The writes of a sequence of commands.
pub open spec fn ops(cmds: Seq<Command>) -> Seq<Op> {
    cmds.map_values(|c: Command| c@)
}

/// `h` with the fields `f` set in order; a later pair wins over an earlier one.
pub open spec fn with_fields(
    h: Map<Seq<char>, Seq<char>>,
    f: Seq<(Seq<char>, Seq<char>)>,
) -> Map<Seq<char>, Seq<char>>
    decreases f.len(),
{
    if f.len() == 0 {
        h
    } else {
        with_fields(h, f.drop_last()).insert(f.last().0, f.last().1)
    }
}

/// The hash at `k`: empty where the key is absent, none where it holds
/// something else.
pub open spec fn hash_slot(s: StoreView, k: Key) -> Option<Map<Seq<char>, Seq<char>>> {
    if !s.contains_key(k) {
        Some(Map::empty())
    } else {
        match s[k] {
            Stored::Hash(h) => Some(h),
            _ => None,
        }
    }
}

/// The set at `k`: empty where the key is absent, none where it holds
/// something else.
pub open spec fn members_slot(s: StoreView, k: Key) -> Option<Set<Seq<char>>> {
    if !s.contains_key(k) {
        Some(Set::empty())
    } else {
        match s[k] {
            Stored::Members(m) => Some(m),
            _ => None,
        }
    }
}

/// The list at `k`: empty where the key is absent, none where it holds
/// something else.
pub open spec fn items_slot(s: StoreView, k: Key) -> Option<Seq<Seq<char>>> {
    if !s.contains_key(k) {
        Some(Seq::empty())
    } else {
        match s[k] {
            Stored::Items(l) => Some(l),
            _ => None,
        }
    }
}

/// The members of the set at `k`; none where it holds no set.
pub open spec fn members(s: StoreView, k: Key) -> Set<Seq<char>> {
    match members_slot(s, k) {
        Some(m) => m,
        None => Set::empty(),
    }
}

/// The store after one write. A write that the store refuses (one that finds
/// a value of another kind at its key, or one with nothing to write) leaves
/// the store as it was.
pub open spec fn apply(s: StoreView, op: Op) -> StoreView {
    match op {
        Op::Del(k) => s.remove(k),
        Op::HSet(k, f) => match hash_slot(s, k) {
            Some(h) if f.len() > 0 => s.insert(k, Stored::Hash(with_fields(h, f))),
            _ => s,
        },
        Op::HDel(k, names) => match hash_slot(s, k) {
            Some(h) if names.len() > 0 && s.contains_key(k) => {
                let rest = h.remove_keys(names.to_set());
                if rest.dom() == Set::<Seq<char>>::empty() {
                    s.remove(k)
                } else {
                    s.insert(k, Stored::Hash(rest))
                }
            },
            _ => s,
        },
        Op::SAdd(k, m) => match members_slot(s, k) {
            Some(old) if m.len() > 0 => s.insert(k, Stored::Members(old + m.to_set())),
            _ => s,
        },
        Op::SRem(k, m) => match members_slot(s, k) {
            Some(old) if m.len() > 0 && s.contains_key(k) => {
                let rest = old - m.to_set();
                if rest == Set::<Seq<char>>::empty() {
                    s.remove(k)
                } else {
                    s.insert(k, Stored::Members(rest))
                }
            },
            _ => s,
        },
        Op::Put(k, v) => s.insert(k, Stored::Text(v)),
        Op::LPush(k, v) => match items_slot(s, k) {
            Some(l) if v.len() > 0 => s.insert(k, Stored::Items(v.reverse() + l)),
            _ => s,
        },
    }
}

/// The store after a sequence of writes, applied in order.
pub open spec fn run(s: StoreView, w: Seq<Op>) -> StoreView
    decreases w.len(),
{
    if w.len() == 0 {
        s
    } else {
        apply(run(s, w.drop_last()), w.last())
    }
}

/// Running one more write applies it to the store that the others left.
pub proof fn lemma_run_push(s: StoreView, w: Seq<Op>, op: Op)
    ensures
        run(s, w.push(op)) == apply(run(s, w), op),
{
    assert(w.push(op).drop_last() =~= w);
}

/// Setting one more field sets it on the hash that the others left.
pub proof fn lemma_with_fields_push(
    h: Map<Seq<char>, Seq<char>>,
    f: Seq<(Seq<char>, Seq<char>)>,
    p: (Seq<char>, Seq<char>),
)
    ensures
        with_fields(h, f.push(p)) == with_fields(h, f).insert(p.0, p.1),
{
    assert(f.push(p).drop_last() =~= f);
}

/// The set of the items of a one-item sequence holds that item alone.
pub proof fn lemma_single_to_set<A>(a: A)
    ensures
        seq![a].to_set() == set![a],
{
    assert(seq![a][0] == a);
    assert(seq![a].to_set() =~= set![a]);
}

/// The key that a write acts on.
pub open spec fn op_key(op: Op) -> Key {
    match op {
        Op::Del(k) => k,
        Op::HSet(k, _) => k,
        Op::HDel(k, _) => k,
        Op::SAdd(k, _) => k,
        Op::SRem(k, _) => k,
        Op::Put(k, _) => k,
        Op::LPush(k, _) => k,
    }
}

/// Whether no write of `w` acts on `k`.
pub open spec fn untouched(w: Seq<Op>, k: Key) -> bool {
    forall|i: int| 0 <= i < w.len() ==> op_key(#[trigger] w[i]) != k
}

/// Writes that do not act on a key leave what it holds as it was.
pub proof fn lemma_run_untouched(s: StoreView, w: Seq<Op>, k: Key)
    requires
        untouched(w, k),
    ensures
        run(s, w).contains_key(k) == s.contains_key(k),
        s.contains_key(k) ==> run(s, w)[k] == s[k],
    decreases w.len(),
{
    if w.len() > 0 {
        assert(untouched(w.drop_last(), k)) by {
            assert forall|i: int| 0 <= i < w.drop_last().len() implies op_key(
                #[trigger] w.drop_last()[i],
            ) != k by {
                assert(w.drop_last()[i] == w[i]);
            }
        }
        lemma_run_untouched(s, w.drop_last(), k);
        assert(op_key(w[w.len() - 1]) != k);
    }
}

/// Running two sequences of writes one after the other runs their
/// concatenation.
pub proof fn lemma_run_concat(s: StoreView, a: Seq<Op>, b: Seq<Op>)
    ensures
        run(s, a + b) == run(run(s, a), b),
    decreases b.len(),
{
    if b.len() == 0 {
        assert(a + b =~= a);
    } else {
        assert((a + b).drop_last() =~= a + b.drop_last());
        assert((a + b).last() == b.last());
        lemma_run_concat(s, a, b.drop_last());
    }
}

/// Writes appended after others that do not act on a key leave the key as
/// the first ones left it.
pub proof fn lemma_run_concat_untouched(s: StoreView, a: Seq<Op>, b: Seq<Op>, k: Key)
    requires
        untouched(b, k),
    ensures
        run(s, a + b).contains_key(k) == run(s, a).contains_key(k),
        members(run(s, a + b), k) == members(run(s, a), k),
{
    lemma_run_concat(s, a, b);
    lemma_run_untouched(run(s, a), b, k);
}

} // verus!
