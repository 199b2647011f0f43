//! Lists of named entries read as maps: an entry overrides every earlier
//! entry of the same name.

use vstd::prelude::*;

verus! {

/// The map that a list of named entries stands for: the entries are inserted
/// in order, so a later entry replaces an earlier one of the same name.
pub open spec fn table_map<V>(entries: Seq<(Seq<char>, V)>) -> Map<Seq<char>, V>
    decreases entries.len(),
{
    if entries.len() == 0 {
        Map::empty()
    } else {
        table_map(entries.drop_last()).insert(entries.last().0, entries.last().1)
    }
}

/// A name is in the map exactly if some entry carries it.
pub proof fn lemma_table_names<V>(entries: Seq<(Seq<char>, V)>, name: Seq<char>)
    ensures
        table_map(entries).contains_key(name) <==> exists|i: int|
            0 <= i < entries.len() && (#[trigger] entries[i]).0 == name,
    decreases entries.len(),
{
    if entries.len() > 0 {
        let rest = entries.drop_last();
        lemma_table_names(rest, name);
        if table_map(entries).contains_key(name) {
            if entries.last().0 == name {
                assert(entries[entries.len() - 1].0 == name);
            } else {
                let i = choose|i: int| 0 <= i < rest.len() && (#[trigger] rest[i]).0 == name;
                assert(entries[i].0 == name);
            }
        }
        if exists|i: int| 0 <= i < entries.len() && (#[trigger] entries[i]).0 == name {
            let i = choose|i: int| 0 <= i < entries.len() && (#[trigger] entries[i]).0 == name;
            if i < rest.len() {
                assert(rest[i].0 == name);
            }
        }
    }
}

/// Every value of the map is the value of an entry that carries its name.
pub proof fn lemma_table_value<V>(entries: Seq<(Seq<char>, V)>, name: Seq<char>)
    requires
        table_map(entries).contains_key(name),
    ensures
        exists|i: int|
            0 <= i < entries.len() && (#[trigger] entries[i]) == (name, table_map(entries)[name]),
    decreases entries.len(),
{
    if entries.len() > 0 {
        if entries.last().0 == name {
            assert(entries[entries.len() - 1] == (name, table_map(entries)[name]));
        } else {
            let rest = entries.drop_last();
            lemma_table_value(rest, name);
            let i = choose|i: int|
                0 <= i < rest.len() && (#[trigger] rest[i]) == (name, table_map(rest)[name]);
            assert(entries[i] == (name, table_map(entries)[name]));
        }
    }
}

/// The map gives a name the value of the last entry that carries it.
pub proof fn lemma_table_last<V>(entries: Seq<(Seq<char>, V)>, i: int)
    requires
        0 <= i < entries.len(),
        forall|j: int| i < j < entries.len() ==> (#[trigger] entries[j]).0 != entries[i].0,
    ensures
        table_map(entries).contains_key(entries[i].0),
        table_map(entries)[entries[i].0] == entries[i].1,
    decreases entries.len(),
{
    if i < entries.len() - 1 {
        let rest = entries.drop_last();
        assert(entries[entries.len() - 1].0 != entries[i].0);
        assert forall|j: int| i < j < rest.len() implies (#[trigger] rest[j]).0 != rest[i].0 by {
            assert(entries[j].0 != entries[i].0);
        }
        lemma_table_last(rest, i);
    }
}

/// What [`find_last`] finds, read in the map of a model of the entries: the
/// value of the entry found, or that the name is not in the map.
pub proof fn lemma_found<V, W>(
    entries: Seq<(String, V)>,
    model: Seq<(Seq<char>, W)>,
    name: Seq<char>,
    found: Option<usize>,
)
    requires
        model.len() == entries.len(),
        forall|i: int| 0 <= i < entries.len() ==> (#[trigger] model[i]).0 == entries[i].0@,
        match found {
            Some(i) => {
                &&& i < entries.len()
                &&& entries[i as int].0@ == name
                &&& forall|j: int| i < j < entries.len() ==> (#[trigger] entries[j]).0@ != name
            },
            None => forall|j: int| 0 <= j < entries.len() ==> (#[trigger] entries[j]).0@ != name,
        },
    ensures
        match found {
            Some(i) => table_map(model).contains_key(name) && table_map(model)[name]
                == model[i as int].1,
            None => !table_map(model).contains_key(name),
        },
{
    lemma_table_names(model, name);
    match found {
        Some(i) => {
            assert forall|j: int| i < j < model.len() implies (#[trigger] model[j]).0
                != model[i as int].0 by {
                assert(entries[j].0@ != name);
            }
            lemma_table_last(model, i as int);
        },
        None => {
            assert forall|j: int| 0 <= j < model.len() implies (#[trigger] model[j]).0
                != name by {
                assert(entries[j].0@ != name);
            }
        },
    }
}

/// The position of the last entry named `name`, if there is one.
pub fn find_last<V>(entries: &Vec<(String, V)>, name: &String) -> (r: Option<usize>)
    ensures
        match r {
            Some(i) => {
                &&& i < entries.len()
                &&& entries[i as int].0@ == name@
                &&& forall|j: int| i < j < entries.len() ==> (#[trigger] entries[j]).0@ != name@
            },
            None => forall|j: int| 0 <= j < entries.len() ==> (#[trigger] entries[j]).0@ != name@,
        },
{
    let mut i: usize = entries.len();
    while i > 0
        invariant
            i <= entries.len(),
            forall|j: int| i <= j < entries.len() ==> (#[trigger] entries[j]).0@ != name@,
        decreases i,
    {
        i -= 1;
        if entries[i].0 == *name {
            return Some(i);
        }
    }
    None
}

} // verus!
