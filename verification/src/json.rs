//! A parsed JSON document, as the decoder reads it.

use crate::text::same_text;
use vstd::prelude::*;

verus! {

/// A JSON value. A number is an `Int` where it is a whole number in the range
/// of `i64`, and `Real` otherwise. The fields of an object stand in the
/// order in which they are handed over; where two go by one name, the first
/// is the one that is read.
#[derive(Debug, PartialEq, Eq)]
pub enum Json {
    Null,
    Bool(bool),
    Int(i64),
    Real,
    Text(String),
    List(Vec<Json>),
    Object(Vec<(String, Json)>),
}

/// The value of the first field of `entries` that is called `key`.
pub open spec fn lookup(entries: Seq<(String, Json)>, key: Seq<char>) -> Option<Json>
    decreases entries.len(),
{
    if entries.len() == 0 {
        None
    } else if entries[0].0@ == key {
        Some(entries[0].1)
    } else {
        lookup(entries.drop_first(), key)
    }
}

/// A field that is added behind the others changes the value of no field
/// that goes by another name.
pub proof fn lemma_lookup_passes_over(
    entries: Seq<(String, Json)>,
    extra: (String, Json),
    key: Seq<char>,
)
    requires
        extra.0@ != key,
    ensures
        lookup(entries.push(extra), key) == lookup(entries, key),
    decreases entries.len(),
{
    let longer = entries.push(extra);
    if entries.len() == 0 {
        assert(longer.drop_first() =~= entries);
    } else {
        assert(longer[0] == entries[0]);
        assert(longer.drop_first() =~= entries.drop_first().push(extra));
        lemma_lookup_passes_over(entries.drop_first(), extra, key);
    }
}

/// Finds the value of the first field of `entries` that is called `key`.
pub fn find<'a>(entries: &'a Vec<(String, Json)>, key: &str) -> (out: Option<&'a Json>)
    ensures
        match out {
            Some(value) => lookup(entries@, key@) == Some(*value),
            None => lookup(entries@, key@) is None,
        },
{
    let mut i: usize = 0;
    assert(entries@.skip(0) =~= entries@);
    while i < entries.len()
        invariant
            i <= entries.len(),
            lookup(entries@, key@) == lookup(entries@.skip(i as int), key@),
        decreases entries.len() - i,
    {
        let ghost rest = entries@.skip(i as int);
        assert(rest[0] == entries@[i as int]);
        assert(rest.drop_first() =~= entries@.skip(i + 1));
        if same_text(entries[i].0.as_str(), key) {
            return Some(&entries[i].1);
        }
        i += 1;
    }
    None
}

impl Json {
    /// The value of the field `key`, where this is an object that has one.
    pub open spec fn field(self, key: Seq<char>) -> Option<Json> {
        match self {
            Json::Object(entries) => lookup(entries@, key),
            _ => None,
        }
    }

    /// The value of the field `key`, where this is an object that has one.
    pub fn get(&self, key: &str) -> (out: Option<&Json>)
        ensures
            match out {
                Some(value) => self.field(key@) == Some(*value),
                None => self.field(key@) is None,
            },
    {
        match self {
            Json::Object(entries) => find(entries, key),
            _ => None,
        }
    }
}

} // verus!
