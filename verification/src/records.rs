//! The values of one measurement block, by field name.

use vstd::prelude::*;
use crate::model::Sample;

verus! {

/// A mapping from field name to decoded value. It is kept in a hash map, so
/// a name occurs once and the entries have no order of their own.
#[verifier::external_body]
#[derive(Debug, PartialEq)]
pub struct Records {
    inner: hashbrown::HashMap<String, Sample>,
}

/// What a `Records` holds, as a mathematical map from the characters of a
/// name to its value.
pub uninterp spec fn record_entries(records: Records) -> Map<Seq<char>, Sample>;

impl View for Records {
    type V = Map<Seq<char>, Sample>;

    open spec fn view(&self) -> Map<Seq<char>, Sample> {
        record_entries(*self)
    }
}

impl Records {
    /// `hashbrown::HashMap::new`: a map without entries.
    #[verifier::external_body]
    pub(crate) fn empty() -> (fresh: Records)
        ensures
            record_entries(fresh) =~= Map::empty(),
    {
        Records { inner: hashbrown::HashMap::new() }
    }

    /// `hashbrown::HashMap::insert`: afterwards the name maps to the value,
    /// whether or not it was present before; the other entries stay.
    #[verifier::external_body]
    pub(crate) fn put(&mut self, name: String, value: Sample)
        ensures
            record_entries(*final(self)) == record_entries(*old(self)).insert(name@, value),
    {
        self.inner.insert(name, value);
    }

    /// `hashbrown::HashMap::get`: the value under a name, if the name is
    /// present.
    #[verifier::external_body]
    pub(crate) fn lookup(&self, name: &str) -> (found: Option<Sample>)
        ensures
            found == (if record_entries(*self).dom().contains(name@) {
                Some(record_entries(*self)[name@])
            } else {
                None
            }),
    {
        self.inner.get(name).copied()
    }

    /// `hashbrown::HashMap::iter`: every entry once, in an order that the
    /// map does not promise.
    #[verifier::external_body]
    pub(crate) fn listing(&self) -> (pairs: Vec<(String, Sample)>)
        ensures
            forall|i: int|
                0 <= i < pairs@.len() ==> record_entries(*self).contains_pair(
                    (#[trigger] pairs@[i]).0@,
                    pairs@[i].1,
                ),
            forall|name: Seq<char>|
                record_entries(*self).dom().contains(name) ==> exists|i: int|
                    0 <= i < pairs@.len() && (#[trigger] pairs@[i]).0@ == name,
            forall|i: int, j: int|
                0 <= i < j < pairs@.len() ==> (#[trigger] pairs@[i]).0@ != (#[trigger] pairs@[j]).0@,
    {
        self.inner.iter().map(|(name, value)| (name.clone(), *value)).collect()
    }

    /// The value recorded under `name`, if there is one.
    pub fn get(&self, name: &str) -> (found: Option<Sample>)
        ensures
            found == (if self@.dom().contains(name@) {
                Some(self@[name@])
            } else {
                None
            }),
    {
        self.lookup(name)
    }

    /// The entries, each name once, in no particular order.
    pub fn entries(&self) -> (pairs: Vec<(String, Sample)>)
        ensures
            forall|i: int|
                0 <= i < pairs@.len() ==> self@.contains_pair((#[trigger] pairs@[i]).0@, pairs@[i].1),
            forall|name: Seq<char>|
                self@.dom().contains(name) ==> exists|i: int|
                    0 <= i < pairs@.len() && (#[trigger] pairs@[i]).0@ == name,
            forall|i: int, j: int|
                0 <= i < j < pairs@.len() ==> (#[trigger] pairs@[i]).0@ != (#[trigger] pairs@[j]).0@,
    {
        self.listing()
    }
}

} // verus!
