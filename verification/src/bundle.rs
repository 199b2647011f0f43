//! The compiled messages of one locale.

use crate::pattern::{pattern_view, Segment, SegmentView};
use crate::table::{find_last, lemma_found, table_map};
use vstd::prelude::*;

verus! {

/// The messages of one locale: a map from message key to pattern. Inserting
/// a key again replaces its pattern.
#[derive(Debug)]
pub struct Bundle {
    entries: Vec<(String, Vec<Segment>)>,
}

/// The entries of a bundle, each by its model.
pub open spec fn bundle_entries(entries: Seq<(String, Vec<Segment>)>) -> Seq<
    (Seq<char>, Seq<SegmentView>),
> {
    Seq::new(entries.len(), |i: int| (entries[i].0@, pattern_view(entries[i].1@)))
}

impl Bundle {
    /// The bundle as a map from key to pattern.
    pub closed spec fn view(&self) -> Map<Seq<char>, Seq<SegmentView>> {
        table_map(bundle_entries(self.entries@))
    }

    /// A bundle without messages.
    pub fn new() -> (r: Bundle)
        ensures
            r@ == Map::<Seq<char>, Seq<SegmentView>>::empty(),
    {
        Bundle { entries: Vec::new() }
    }

    /// Gives `key` the pattern `pattern`.
    pub fn insert(&mut self, key: String, pattern: Vec<Segment>)
        ensures
            final(self)@ == old(self)@.insert(key@, pattern_view(pattern@)),
    {
        self.entries.push((key, pattern));
        proof {
            assert(bundle_entries(self.entries@).drop_last() =~= bundle_entries(
                old(self).entries@,
            ));
        }
    }

    /// The pattern of `key`, if the bundle has one.
    pub fn get(&self, key: &String) -> (r: Option<&Vec<Segment>>)
        ensures
            match r {
                Some(p) => self@.contains_key(key@) && self@[key@] == pattern_view(p@),
                None => !self@.contains_key(key@),
            },
    {
        let found = find_last(&self.entries, key);
        proof {
            lemma_found(self.entries@, bundle_entries(self.entries@), key@, found);
        }
        match found {
            Some(i) => Some(&self.entries[i].1),
            None => None,
        }
    }
}

} // verus!
