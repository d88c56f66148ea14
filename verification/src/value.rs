//! Runtime values: what the emitted parse procedures produce. A parsed
//! object holds its field values in sequence order plus one compute-once
//! cache cell per instance of its type.

use vstd::prelude::*;
use vstd::slice::slice_to_vec;

verus! {

/// A runtime value held by a parsed field. Integers cover the unsigned and
/// signed reads of every width; a float field carries its raw bits as an
/// integer, since the library does no float arithmetic.
#[derive(Debug)]
pub enum Value {
    Int(i128),
    Bool(bool),
    Bytes(Vec<u8>),
    List(Vec<Value>),
    Record(ParsedObj),
}

/// One parsed object: the field values read by the parse procedure, and an
/// empty-or-filled cache cell per instance, filled on first access only.
#[derive(Debug)]
pub struct ParsedObj {
    /// Which emitted type produced this object.
    pub type_index: usize,
    /// Parsed field values, in sequence order; a condition-skipped
    /// attribute has no entry.
    pub fields: Vec<(Vec<u8>, Value)>,
    /// One cell per instance of the type: `None` until first access.
    pub cache: Vec<(Vec<u8>, Option<Value>)>,
}

/// The value bound to `name` among parsed fields, first binding wins.
pub open spec fn field_find(s: Seq<(Vec<u8>, Value)>, name: Seq<u8>) -> Option<Value>
    decreases s.len(),
{
    if s.len() == 0 {
        Option::None
    } else if s[0].0@ == name {
        Option::Some(s[0].1)
    } else {
        field_find(s.drop_first(), name)
    }
}

/// The index of the first field bearing `name`, or -1 when there is none.
pub open spec fn field_slot(s: Seq<(Vec<u8>, Value)>, name: Seq<u8>) -> int
    decreases s.len(),
{
    if s.len() == 0 {
        -1
    } else if s[0].0@ == name {
        0
    } else {
        let r = field_slot(s.drop_first(), name);
        if r < 0 {
            -1
        } else {
            r + 1
        }
    }
}

/// Dropping a scanned, unmatched prefix of the fields shifts the found
/// slot by the prefix length.
pub proof fn lemma_field_slot_skip(s: Seq<(Vec<u8>, Value)>, name: Seq<u8>, i: int)
    requires
        0 <= i <= s.len(),
        forall|j: int| 0 <= j < i ==> (#[trigger] s[j]).0@ != name,
    ensures
        field_slot(s, name) == (if field_slot(s.skip(i), name) < 0 {
            -1
        } else {
            field_slot(s.skip(i), name) + i
        }),
    decreases i,
{
    if i == 0 {
        assert(s.skip(0) =~= s);
    } else {
        lemma_field_slot_skip(s.drop_first(), name, i - 1);
        assert(s.drop_first().skip(i - 1) =~= s.skip(i));
    }
}

/// The slot of a name depends on the cache keys alone: two caches of the
/// same length with equal keys everywhere place every name at the same
/// slot.
pub proof fn lemma_slot_of_keys(
    s1: Seq<(Vec<u8>, Option<Value>)>,
    s2: Seq<(Vec<u8>, Option<Value>)>,
    name: Seq<u8>,
)
    requires
        s1.len() == s2.len(),
        forall|j: int| 0 <= j < s1.len() ==> (#[trigger] s1[j]).0@ == s2[j].0@,
    ensures
        slot_of(s1, name) == slot_of(s2, name),
    decreases s1.len(),
{
    if s1.len() > 0 {
        assert(s1[0].0@ == s2[0].0@);
        assert forall|j: int|
            0 <= j < s1.drop_first().len() implies (#[trigger] s1.drop_first()[j]).0@
            == s2.drop_first()[j].0@ by {
            assert(s1[j + 1].0@ == s2[j + 1].0@);
        }
        lemma_slot_of_keys(s1.drop_first(), s2.drop_first(), name);
    }
}

/// The index of the cache cell for `name`, or -1 when the type has no such
/// instance.
pub open spec fn slot_of(s: Seq<(Vec<u8>, Option<Value>)>, name: Seq<u8>) -> int
    decreases s.len(),
{
    if s.len() == 0 {
        -1
    } else if s[0].0@ == name {
        0
    } else {
        let r = slot_of(s.drop_first(), name);
        if r < 0 {
            -1
        } else {
            r + 1
        }
    }
}

/// Dropping a scanned, unmatched prefix shifts the found slot by the
/// prefix length.
pub proof fn lemma_slot_skip(s: Seq<(Vec<u8>, Option<Value>)>, name: Seq<u8>, i: int)
    requires
        0 <= i <= s.len(),
        forall|j: int| 0 <= j < i ==> (#[trigger] s[j]).0@ != name,
    ensures
        slot_of(s, name) == (if slot_of(s.skip(i), name) < 0 {
            -1
        } else {
            slot_of(s.skip(i), name) + i
        }),
    decreases i,
{
    if i == 0 {
        assert(s.skip(0) =~= s);
    } else {
        lemma_slot_skip(s.drop_first(), name, i - 1);
        assert(s.drop_first().skip(i - 1) =~= s.skip(i));
    }
}

impl ParsedObj {
    /// Finds a field by name, first binding wins.
    pub fn get_field<'a>(&'a self, name: &[u8]) -> (r: Option<&'a Value>)
        ensures
            match r {
                Some(v) => field_find(self.fields@, name@) == Option::Some(*v),
                None => field_find(self.fields@, name@) is None,
            },
    {
        let n = self.fields.len();
        let mut i: usize = 0;
        proof {
            assert(self.fields@.skip(0) =~= self.fields@);
        }
        while i < n
            invariant
                i <= n,
                self.fields@.len() == n,
                field_find(self.fields@, name@) == field_find(self.fields@.skip(i as int), name@),
            decreases n - i,
        {
            proof {
                assert(self.fields@.skip(i as int)[0] == self.fields@[i as int]);
                assert(self.fields@.skip(i as int).drop_first() =~= self.fields@.skip(i + 1));
            }
            if crate::doc::bytes_eq(self.fields[i].0.as_slice(), name) {
                return Some(&self.fields[i].1);
            }
            i = i + 1;
        }
        None
    }

    /// Replaces the value of the first field bearing `name`, leaving every
    /// other field, the name itself, and the caches as they were; reports
    /// whether such a field existed.
    pub fn set_field(&mut self, name: &[u8], v: Value) -> (found: bool)
        ensures
            final(self).type_index == old(self).type_index,
            final(self).cache == old(self).cache,
            final(self).fields@.len() == old(self).fields@.len(),
            found == (field_slot(old(self).fields@, name@) >= 0),
            !found ==> final(self).fields == old(self).fields,
            found ==> final(self).fields@ == old(self).fields@.update(
                field_slot(old(self).fields@, name@),
                (old(self).fields@[field_slot(old(self).fields@, name@)].0, v),
            ),
    {
        let n = self.fields.len();
        let mut i: usize = 0;
        while i < n
            invariant
                i <= n,
                self.fields@.len() == n,
                *self == *old(self),
                forall|j: int| 0 <= j < i ==> (#[trigger] self.fields@[j]).0@ != name@,
            decreases n - i,
        {
            if crate::doc::bytes_eq(self.fields[i].0.as_slice(), name) {
                proof {
                    lemma_field_slot_skip(self.fields@, name@, i as int);
                    assert(self.fields@.skip(i as int)[0] == self.fields@[i as int]);
                    assert(field_slot(self.fields@, name@) == i);
                }
                let entry = self.fields.remove(i);
                self.fields.insert(i, (entry.0, v));
                proof {
                    assert(self.fields@ =~= old(self).fields@.update(
                        i as int,
                        (old(self).fields@[i as int].0, self.fields@[i as int].1),
                    ));
                }
                return true;
            }
            i = i + 1;
        }
        proof {
            lemma_field_slot_skip(self.fields@, name@, n as int);
            assert(self.fields@.skip(n as int).len() == 0);
        }
        false
    }
}

/// A deep copy of a value.
#[verifier::loop_isolation(false)]
pub(crate) fn clone_value(v: &Value) -> (r: Value)
    decreases v,
{
    match v {
        Value::Int(i) => Value::Int(*i),
        Value::Bool(b) => Value::Bool(*b),
        Value::Bytes(b) => Value::Bytes(slice_to_vec(b.as_slice())),
        Value::List(items) => {
            let n = items.len();
            let mut out: Vec<Value> = Vec::new();
            let mut i: usize = 0;
            while i < n
                invariant
                    i <= n,
                    n == items@.len(),
                decreases n - i,
            {
                out.push(clone_value(&items[i]));
                i = i + 1;
            }
            Value::List(out)
        },
        Value::Record(o) => Value::Record(clone_obj(o)),
    }
}

/// A deep copy of a parsed object.
#[verifier::loop_isolation(false)]
pub(crate) fn clone_obj(o: &ParsedObj) -> (r: ParsedObj)
    decreases o,
{
    let mut fields: Vec<(Vec<u8>, Value)> = Vec::new();
    let nf = o.fields.len();
    let mut i: usize = 0;
    while i < nf
        invariant
            i <= nf,
            nf == o.fields@.len(),
        decreases nf - i,
    {
        fields.push((slice_to_vec(o.fields[i].0.as_slice()), clone_value(&o.fields[i].1)));
        i = i + 1;
    }
    let mut cache: Vec<(Vec<u8>, Option<Value>)> = Vec::new();
    let nc = o.cache.len();
    let mut j: usize = 0;
    while j < nc
        invariant
            j <= nc,
            nc == o.cache@.len(),
        decreases nc - j,
    {
        let cell = match &o.cache[j].1 {
            Some(v) => Some(clone_value(v)),
            None => None,
        };
        cache.push((slice_to_vec(o.cache[j].0.as_slice()), cell));
        j = j + 1;
    }
    ParsedObj { type_index: o.type_index, fields, cache }
}

} // verus!
