use vstd::prelude::*;
use vstd::hash_map::StringHashMap;
use crate::number::{parse_u64, parsed_u64};
use crate::store::texts;

verus! {

/// A record: field names to values, as a hash holds them.
pub type Fields = Map<Seq<char>, Seq<char>>;

/// The record that a flattened field/value reply spells: consecutive items
/// pair up into a field name and its value, and a later pair wins.
pub open spec fn pair_up(flat: Seq<Seq<char>>) -> Fields
    decreases flat.len(),
{
    if flat.len() < 2 {
        Map::empty()
    } else {
        pair_up(flat.subrange(0, flat.len() - 2)).insert(flat[flat.len() - 2], flat[flat.len() - 1])
    }
}

/// The text of each value of `m`.
pub open spec fn text_map(m: Map<Seq<char>, String>) -> Fields {
    m.map_values(|s: String| s@)
}

/// The text of an optional string.
pub open spec fn opt_text(o: Option<String>) -> Option<Seq<char>> {
    match o {
        Some(s) => Some(s@),
        None => None,
    }
}

/// A required number field: its value read as a decimal number.
pub open spec fn number_field(f: Fields, name: Seq<char>) -> Option<u64> {
    if f.contains_key(name) {
        parsed_u64(f[name])
    } else {
        None
    }
}

/// A required text field, taken as it stands.
pub open spec fn text_field(f: Fields, name: Seq<char>) -> Option<Seq<char>> {
    f.get(name)
}

/// A flag is stored as `1` or `0`.
pub open spec fn flag_value(t: Seq<char>) -> Option<bool> {
    if t == "1"@ {
        Some(true)
    } else if t == "0"@ {
        Some(false)
    } else {
        None
    }
}

/// An optional flag field: `Some(None)` where it is absent, `None` where it
/// is present but malformed.
pub open spec fn optional_flag(f: Fields, name: Seq<char>) -> Option<Option<bool>> {
    if f.contains_key(name) {
        match flag_value(f[name]) {
            Some(b) => Some(Some(b)),
            None => None,
        }
    } else {
        Some(None)
    }
}

/// An optional number field: `Some(None)` where it is absent, `None` where it
/// is present but malformed.
pub open spec fn optional_number(f: Fields, name: Seq<char>) -> Option<Option<u64>> {
    if f.contains_key(name) {
        match parsed_u64(f[name]) {
            Some(n) => Some(Some(n)),
            None => None,
        }
    } else {
        Some(None)
    }
}

/// The stored text of a flag.
pub open spec fn flag_text(b: bool) -> Seq<char> {
    if b {
        "1"@
    } else {
        "0"@
    }
}

/// A record assembled from a store reply, with the field rules that decode
/// its values. Values stay text: a number field reads its text as a decimal
/// number, and a text field takes the text as it stands, so a number stored
/// in a text field and a number field stored as a string are both accepted.
pub struct Record {
    fields: StringHashMap<String>,
}

impl View for Record {
    type V = Fields;

    closed spec fn view(&self) -> Fields {
        text_map(self.fields@)
    }
}

/// Whether `t` spells `lit`.
pub fn text_is(t: &String, lit: &str) -> (r: bool)
    ensures
        r == (t@ == lit@),
{
    *t == String::from_str(lit)
}

impl Record {
    /// Pairs up a flattened field/value reply; none where it has an odd
    /// number of items.
    pub fn from_flat(flat: &Vec<String>) -> (r: Option<Record>)
        ensures
            match r {
                Some(rec) => flat@.len() % 2 == 0 && rec@ == pair_up(texts(flat@)),
                None => flat@.len() % 2 == 1,
            },
    {
        if flat.len() % 2 == 1 {
            return None;
        }
        let mut fields: StringHashMap<String> = StringHashMap::new();
        let mut i: usize = 0;
        assert(texts(flat@).subrange(0, 0) =~= Seq::<Seq<char>>::empty());
        assert(text_map(fields@) =~= Map::<Seq<char>, Seq<char>>::empty());
        while i < flat.len()
            invariant
                flat@.len() % 2 == 0,
                i % 2 == 0,
                i <= flat@.len(),
                text_map(fields@) == pair_up(texts(flat@).subrange(0, i as int)),
            decreases flat@.len() - i,
        {
            let name = flat[i].clone();
            let value = flat[i + 1].clone();
            let ghost before = fields@;
            fields.insert(name, value);
            proof {
                let t = texts(flat@);
                let p = t.subrange(0, i + 2);
                assert(p.subrange(0, p.len() - 2) =~= t.subrange(0, i as int));
                assert(p[p.len() - 2] == flat@[i as int]@);
                assert(p[p.len() - 1] == flat@[i + 1]@);
                assert(text_map(fields@) =~= text_map(before).insert(flat@[i as int]@, flat@[i + 1]@));
            }
            i = i + 2;
        }
        assert(texts(flat@).subrange(0, flat@.len() as int) =~= texts(flat@));
        Some(Record { fields })
    }

    /// The value of a field, if present.
    pub fn text(&self, name: &str) -> (r: Option<String>)
        ensures
            opt_text(r) == self@.get(name@),
    {
        match self.fields.get(name) {
            Some(v) => Some(v.clone()),
            None => None,
        }
    }

    /// A required number field.
    pub fn number(&self, name: &str) -> (r: Option<u64>)
        ensures
            r == number_field(self@, name@),
    {
        match self.fields.get(name) {
            Some(v) => parse_u64(v.as_str()),
            None => None,
        }
    }

    /// An optional number field.
    pub fn optional_number(&self, name: &str) -> (r: Option<Option<u64>>)
        ensures
            r == optional_number(self@, name@),
    {
        match self.fields.get(name) {
            Some(v) => match parse_u64(v.as_str()) {
                Some(n) => Some(Some(n)),
                None => None,
            },
            None => Some(None),
        }
    }

    /// An optional flag field.
    pub fn optional_flag(&self, name: &str) -> (r: Option<Option<bool>>)
        ensures
            r == optional_flag(self@, name@),
    {
        match self.fields.get(name) {
            Some(v) => {
                if text_is(v, "1") {
                    Some(Some(true))
                } else if text_is(v, "0") {
                    Some(Some(false))
                } else {
                    None
                }
            },
            None => Some(None),
        }
    }

    /// A required flag field.
    pub fn flag(&self, name: &str) -> (r: Option<bool>)
        ensures
            r == (if self@.contains_key(name@) { flag_value(self@[name@]) } else { None }),
    {
        match self.optional_flag(name) {
            Some(Some(b)) => Some(b),
            _ => None,
        }
    }
}

} // verus!
