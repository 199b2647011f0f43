//! The named arguments of one formatting call.

use crate::table::{find_last, lemma_found, table_map};
use vstd::prelude::*;

verus! {

/// The value of one argument.
#[derive(Clone, Debug, PartialEq, Eq)]
pub enum ArgValue {
    /// Text. A selector compares it with a guard character by character.
    Str(String),
    /// An integer. A selector compares it with the number that a guard
    /// denotes; a placeholder writes it in base ten.
    Int(i64),
    /// Text that the caller has formatted already. A placeholder writes it
    /// out; no guard matches it.
    Preformatted(String),
}

/// The model of an [`ArgValue`].
pub ghost enum ArgValueView {
    Str(Seq<char>),
    Int(int),
    Preformatted(Seq<char>),
}

impl ArgValue {
    pub open spec fn view(&self) -> ArgValueView {
        match self {
            ArgValue::Str(t) => ArgValueView::Str(t@),
            ArgValue::Int(n) => ArgValueView::Int(*n as int),
            ArgValue::Preformatted(t) => ArgValueView::Preformatted(t@),
        }
    }
}

/// Named arguments. Setting a name again replaces its value.
#[derive(Debug)]
pub struct Args {
    entries: Vec<(String, ArgValue)>,
}

/// The entries of an argument list, each by its model.
pub open spec fn arg_entries(entries: Seq<(String, ArgValue)>) -> Seq<(Seq<char>, ArgValueView)> {
    Seq::new(entries.len(), |i: int| (entries[i].0@, entries[i].1@))
}

impl Args {
    /// The arguments as a map from name to value.
    pub closed spec fn view(&self) -> Map<Seq<char>, ArgValueView> {
        table_map(arg_entries(self.entries@))
    }

    /// No arguments.
    pub fn new() -> (r: Args)
        ensures
            r@ == Map::<Seq<char>, ArgValueView>::empty(),
    {
        Args { entries: Vec::new() }
    }

    /// Gives `name` the value `value`.
    pub fn set(&mut self, name: &str, value: ArgValue)
        ensures
            final(self)@ == old(self)@.insert(name@, value@),
    {
        let owned = name.to_owned();
        self.entries.push((owned, value));
        proof {
            assert(arg_entries(self.entries@).drop_last() =~= arg_entries(old(self).entries@));
        }
    }

    /// The value of `name`, if it has one.
    pub fn get(&self, name: &String) -> (r: Option<&ArgValue>)
        ensures
            match r {
                Some(v) => self@.contains_key(name@) && self@[name@] == v@,
                None => !self@.contains_key(name@),
            },
    {
        let found = find_last(&self.entries, name);
        proof {
            lemma_found(self.entries@, arg_entries(self.entries@), name@, found);
        }
        match found {
            Some(i) => Some(&self.entries[i].1),
            None => None,
        }
    }
}

} // verus!
