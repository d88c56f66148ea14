//! The generic document value model: the already-parsed form of a format
//! specification. The caller turns its specification text into this tree;
//! the compiler never reads text or files itself.

use vstd::prelude::*;
use vstd::slice::slice_index_get;

verus! {

/// A generic document value. Scalar strings and mapping keys are byte
/// strings; a numeric mapping key carries its decimal text.
#[derive(Debug)]
pub enum Doc {
    Bool(bool),
    Int(i64),
    Str(Vec<u8>),
    List(Vec<Doc>),
    Mapping(Vec<(Vec<u8>, Doc)>),
}

/// The value bound to `key` in an association list, first binding wins.
pub open spec fn assoc_find(s: Seq<(Vec<u8>, Doc)>, key: Seq<u8>) -> Option<Doc>
    decreases s.len(),
{
    if s.len() == 0 {
        Option::None
    } else if s[0].0@ == key {
        Option::Some(s[0].1)
    } else {
        assoc_find(s.drop_first(), key)
    }
}

/// Whether two byte strings hold the same bytes.
pub fn bytes_eq(a: &[u8], b: &[u8]) -> (r: bool)
    ensures
        r == (a@ == b@),
{
    if a.len() != b.len() {
        proof {
            assert(a@ != b@);
        }
        return false;
    }
    let n = a.len();
    let mut i: usize = 0;
    while i < n
        invariant
            i <= n,
            a@.len() == n,
            b@.len() == n,
            forall|j: int| 0 <= j < i ==> a@[j] == b@[j],
        decreases n - i,
    {
        if *slice_index_get(a, i) != *slice_index_get(b, i) {
            return false;
        }
        i = i + 1;
    }
    proof {
        assert(a@ =~= b@);
    }
    true
}

/// Looks `key` up in the entries of a mapping, first binding wins.
pub fn map_get<'a>(entries: &'a Vec<(Vec<u8>, Doc)>, key: &[u8]) -> (r: Option<&'a Doc>)
    ensures
        match r {
            Some(d) => assoc_find(entries@, key@) == Option::Some(*d),
            None => assoc_find(entries@, key@) is None,
        },
{
    let n = entries.len();
    let mut i: usize = 0;
    proof {
        assert(entries@.skip(0) =~= entries@);
    }
    while i < n
        invariant
            i <= n,
            entries@.len() == n,
            assoc_find(entries@, key@) == assoc_find(entries@.skip(i as int), key@),
        decreases n - i,
    {
        if bytes_eq(entries[i].0.as_slice(), key) {
            proof {
                assert(entries@.skip(i as int)[0] == entries@[i as int]);
            }
            return Some(&entries[i].1);
        }
        proof {
            assert(entries@.skip(i as int)[0] == entries@[i as int]);
            assert(entries@.skip(i as int).drop_first() =~= entries@.skip(i + 1));
        }
        i = i + 1;
    }
    proof {
        assert(entries@.skip(n as int).len() == 0);
    }
    None
}

} // verus!
