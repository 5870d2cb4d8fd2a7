use vstd::prelude::*;
use vstd::string::*;

use crate::errors::TagKind;

verus! {

/// One node of the decoded tagged tree that an external NBT decoder
/// supplies.  Only the kinds the decode pipeline consumes are kept;
/// every other kind collapses to `Other`, which every accessor
/// rejects as a wrong kind.
#[derive(Debug)]
pub enum Tag {
    Byte(i8),
    Int(i32),
    Long(i64),
    Str(String),
    LongArray(Vec<i64>),
    List(Vec<Tag>),
    Compound(Vec<(String, Tag)>),
    Other,
}

/// A compound holds named tagged values; lookup order is first match
/// wins, and an external decoder never produces duplicate keys.
pub type Compound = Vec<(String, Tag)>;

impl Tag {
    /// The kind of this tag, for error reporting.
    pub open spec fn kind_spec(&self) -> TagKind {
        match self {
            Tag::Byte(_) => TagKind::Byte,
            Tag::Int(_) => TagKind::Int,
            Tag::Long(_) => TagKind::Long,
            Tag::Str(_) => TagKind::Str,
            Tag::LongArray(_) => TagKind::LongArray,
            Tag::List(_) => TagKind::List,
            Tag::Compound(_) => TagKind::Compound,
            Tag::Other => TagKind::Other,
        }
    }

    /// The kind of this tag, for error reporting.
    pub fn kind(&self) -> (k: TagKind)
        ensures
            k == self.kind_spec(),
    {
        match self {
            Tag::Byte(_) => TagKind::Byte,
            Tag::Int(_) => TagKind::Int,
            Tag::Long(_) => TagKind::Long,
            Tag::Str(_) => TagKind::Str,
            Tag::LongArray(_) => TagKind::LongArray,
            Tag::List(_) => TagKind::List,
            Tag::Compound(_) => TagKind::Compound,
            Tag::Other => TagKind::Other,
        }
    }
}

/// The value stored under `key` in a compound: the first entry whose
/// name reads as `key`, or `None` when no entry does.
pub open spec fn spec_lookup(entries: Seq<(String, Tag)>, key: Seq<char>) -> Option<Tag>
    decreases entries.len(),
{
    if entries.len() == 0 {
        None
    } else if entries[0].0@ == key {
        Some(entries[0].1)
    } else {
        spec_lookup(entries.drop_first(), key)
    }
}

/// The view of an optional string: its character sequence, if any.
pub open spec fn opt_string_view(o: Option<String>) -> Option<Seq<char>> {
    match o {
        Some(s) => Some(s@),
        None => None,
    }
}

/// Character-by-character string comparison, so that equality of
/// names is equality of their character sequences.
pub fn str_eq(a: &str, b: &str) -> (r: bool)
    ensures
        r == (a@ == b@),
{
    let a_len = a.unicode_len();
    let b_len = b.unicode_len();
    if a_len != b_len {
        return false;
    }
    let mut i: usize = 0;
    while i < a_len
        invariant
            i <= a_len,
            a_len == a@.len(),
            b_len == b@.len(),
            a_len == b_len,
            forall|j: int| 0 <= j < i ==> a@[j] == b@[j],
        decreases a_len - i,
    {
        if a.get_char(i) != b.get_char(i) {
            return false;
        }
        i += 1;
    }
    proof {
        assert(a@ =~= b@);
    }
    true
}

/// Fetch the tag stored under `key` in a compound, if any.
pub fn compound_get<'a>(entries: &'a Compound, key: &str) -> (r: Option<&'a Tag>)
    ensures
        match r {
            Some(t) => spec_lookup(entries@, key@) == Some(*t),
            None => spec_lookup(entries@, key@) is None,
        },
{
    let n = entries.len();
    let mut i: usize = 0;
    proof {
        assert(entries@.skip(0) =~= entries@);
    }
    while i < n
        invariant
            i <= n,
            n == entries@.len(),
            spec_lookup(entries@, key@) == spec_lookup(entries@.skip(i as int), key@),
        decreases n - i,
    {
        proof {
            assert(entries@.skip(i as int)[0] == entries@[i as int]);
            assert(entries@.skip(i as int).drop_first() =~= entries@.skip(i + 1));
        }
        if str_eq(entries[i].0.as_str(), key) {
            return Some(&entries[i].1);
        }
        i += 1;
    }
    proof {
        assert(entries@.skip(n as int).len() == 0);
    }
    None
}

} // verus!
