//! What holds of the engine as a whole, proved from the definitions of its
//! parts.

use crate::args::ArgValueView;
use crate::formatter::message;
use crate::grammar::{
    after, branches, close_selector, compiled, entries, entry, lemma_skip_ignored, literal_run,
    placeable, segments, skip_ignored,
    EntryView, Flaw, ParseReason, Parsed,
};
use crate::pattern::{default_count, segment_well_formed, well_formed, BranchView, SegmentView};
use crate::scanner::{
    all_listed, listed_entries, resource_locale, scanned, selected, DirEntryView,
    ResourceFileView,
};
use crate::store::{built, BuildErrorView, FileView, StoreMap};
use crate::table::{lemma_table_last, lemma_table_value, table_map};
use crate::text::{lemma_scan, lemma_scan_forward, scan, CharClass};
use vstd::prelude::*;

verus! {

/// A directory in which no file has the name of a resource file gives no
/// file to read; from no files the store is built, and it is empty; and the
/// empty store has no message, whatever is asked of it.
pub proof fn lemma_no_resources(
    listing: Seq<DirEntryView>,
    lang: Seq<char>,
    key: Seq<char>,
    args: Map<Seq<char>, ArgValueView>,
)
    requires
        forall|i: int|
            0 <= i < listing.len() ==> (#[trigger] listing[i]).is_dir || resource_locale(
                listing[i].name,
            ) is None,
    ensures
        selected(listing) == Seq::<ResourceFileView>::empty(),
        built(Seq::<FileView>::empty()) == Ok::<StoreMap, BuildErrorView>(Map::empty()),
        message(Map::empty(), lang, key, args) is None,
    decreases listing.len(),
{
    if listing.len() > 0 {
        let rest = listing.drop_last();
        assert forall|i: int| 0 <= i < rest.len() implies (#[trigger] rest[i]).is_dir
            || resource_locale(rest[i].name) is None by {
            assert(rest[i] == listing[i]);
        }
        lemma_no_resources(rest, lang, key, args);
        assert(listing[listing.len() - 1] == listing.last());
    }
}

/// A directory of which every entry was listed, and in which no file has the
/// name of a resource file, is scanned without failure and gives no file to
/// read.
pub proof fn lemma_no_resources_listed(listing: Seq<Option<DirEntryView>>)
    requires
        all_listed(listing),
        forall|i: int|
            0 <= i < listing.len() ==> (#[trigger] listing[i]).unwrap().is_dir || resource_locale(
                listing[i].unwrap().name,
            ) is None,
    ensures
        scanned(listing) == Some(Seq::<ResourceFileView>::empty()),
{
    let entries = listed_entries(listing);
    assert forall|i: int| 0 <= i < entries.len() implies (#[trigger] entries[i]).is_dir
        || resource_locale(entries[i].name) is None by {
        assert(entries[i] == listing[i].unwrap());
    }
    lemma_no_resources(entries, Seq::empty(), Seq::empty(), Map::empty());
}

/// Where a resource defines a key more than once, the bundle holds the
/// pattern of the definition that stands last in the text.
pub proof fn lemma_last_definition_wins(text: Seq<char>, list: Seq<EntryView>, i: int)
    requires
        entries(text, 0, Seq::empty()) == Ok::<Seq<EntryView>, Flaw>(list),
        0 <= i < list.len(),
        forall|j: int| i < j < list.len() ==> (#[trigger] list[j]).0 != list[i].0,
    ensures
        compiled(text) matches Ok(bundle) && bundle.contains_key(list[i].0) && bundle[list[i].0]
            == list[i].1,
{
    lemma_table_last(list, i);
}

/// A selector is closed exactly if one of its branches is the default; with
/// none, and with more than one, the resource is refused for that reason.
pub proof fn lemma_selector_default(name: Seq<char>, list: Seq<BranchView>, at: int)
    ensures
        close_selector(name, list, at) is Ok <==> default_count(list) == 1,
        default_count(list) == 0 ==> close_selector(name, list, at) == Err::<
            Parsed<SegmentView>,
            Flaw,
        >(Flaw { at, reason: ParseReason::MissingDefault }),
        default_count(list) > 1 ==> close_selector(name, list, at) == Err::<
            Parsed<SegmentView>,
            Flaw,
        >(Flaw { at, reason: ParseReason::MultipleDefaults }),
{
}

/// The segments that are read are well formed, if those before them were.
pub proof fn lemma_segments_well_formed(s: Seq<char>, i: int, top: bool, acc: Seq<SegmentView>)
    requires
        well_formed(acc),
    ensures
        segments(s, i, top, acc) matches Ok(p) ==> well_formed(p.value),
    decreases s.len() - i, 1nat,
{
    if !(0 <= i < s.len()) {
    } else if s[i] == '{' {
        lemma_placeable_well_formed(s, i);
        match placeable(s, i) {
            Err(_) => {},
            Ok(p) => {
                lemma_segments_well_formed(s, after(s, i, p.next), top, acc.push(p.value));
            },
        }
    } else if s[i] == '}' {
    } else if s[i] == '\n' && !(top && crate::grammar::continues(s, i)) {
    } else {
        match literal_run(s, i, top, Seq::empty()) {
            Err(_) => {},
            Ok(l) => {
                let next = if l.value.len() > 0 {
                    acc.push(SegmentView::Literal(l.value))
                } else {
                    acc
                };
                lemma_segments_well_formed(s, after(s, i, l.next), top, next);
            },
        }
    }
}

/// A placeholder is well formed, and so is a selector that is read.
pub proof fn lemma_placeable_well_formed(s: Seq<char>, i: int)
    ensures
        placeable(s, i) matches Ok(p) ==> segment_well_formed(p.value),
    decreases s.len() - i, 0nat,
{
    let j = scan(s, i + 1, CharClass::Space);
    let k = scan(s, j + 1, CharClass::Name);
    let m = scan(s, k, CharClass::Space);
    if j < s.len() && s[j] == '$' && k != j + 1 && m < s.len() && s[m] == '-' && m + 1 < s.len()
        && s[m + 1] == '>' {
        lemma_scan_forward(s, i + 1, CharClass::Space);
        lemma_scan_forward(s, j + 1, CharClass::Name);
        lemma_scan_forward(s, k, CharClass::Space);
        lemma_branches_well_formed(s, m + 2, i, s.subrange(j + 1, k), Seq::empty());
    }
}

/// A selector that is read has exactly one default branch, and so has every
/// selector inside it.
pub proof fn lemma_branches_well_formed(
    s: Seq<char>,
    i: int,
    open: int,
    name: Seq<char>,
    acc: Seq<BranchView>,
)
    requires
        forall|k: int| 0 <= k < acc.len() ==> well_formed((#[trigger] acc[k]).pattern),
    ensures
        branches(s, i, open, name, acc) matches Ok(p) ==> segment_well_formed(p.value),
    decreases s.len() - i, 2nat,
{
    let j = scan(s, i, CharClass::Space);
    let b = if j < s.len() && s[j] == '*' {
        j + 1
    } else {
        j
    };
    let g = scan(s, b + 1, CharClass::Name);
    let p = scan(s, g + 1, CharClass::Blank);
    if i < 0 || j >= s.len() {
    } else if s[j] == '}' {
    } else if b >= s.len() {
    } else if s[b] != '[' {
    } else if g == b + 1 || g >= s.len() || s[g] != ']' {
    } else {
        lemma_scan_forward(s, i, CharClass::Space);
        lemma_scan_forward(s, b + 1, CharClass::Name);
        lemma_scan(s, g + 1, CharClass::Blank);
        lemma_segments_well_formed(s, p, false, Seq::empty());
        match segments(s, p, false, Seq::empty()) {
            Err(_) => {},
            Ok(r) => {
                let branch = BranchView {
                    guard: s.subrange(b + 1, g),
                    default: b > j,
                    pattern: r.value,
                };
                lemma_branches_well_formed(s, after(s, i, r.next), open, name, acc.push(branch));
            },
        }
    }
}

/// The entries that are read have well-formed patterns, if those before
/// them had.
pub proof fn lemma_entries_well_formed(s: Seq<char>, i: int, acc: Seq<EntryView>)
    requires
        forall|k: int| 0 <= k < acc.len() ==> well_formed((#[trigger] acc[k]).1),
    ensures
        entries(s, i, acc) matches Ok(list) ==> forall|k: int|
            0 <= k < list.len() ==> well_formed((#[trigger] list[k]).1),
    decreases s.len() - i,
{
    let l = skip_ignored(s, i);
    if !(0 <= i < s.len()) || l >= s.len() {
    } else if crate::text::is_blank(s[l]) {
    } else {
        lemma_skip_ignored(s, i);
        let k = scan(s, l, CharClass::Name);
        let j = scan(s, k, CharClass::Blank);
        let p = scan(s, j + 1, CharClass::Blank);
        lemma_segments_well_formed(s, p, true, Seq::empty());
        match entry(s, l) {
            Err(_) => {},
            Ok(e) => {
                lemma_entries_well_formed(s, after(s, l, e.next), acc.push(e.value));
            },
        }
    }
}

/// In every pattern of a compiled resource, every selector has exactly one
/// default branch: a resource with a selector that has none, or more than
/// one, does not compile.
pub proof fn lemma_compiled_well_formed(text: Seq<char>, key: Seq<char>)
    ensures
        compiled(text) matches Ok(bundle) ==> (bundle.contains_key(key) ==> well_formed(
            bundle[key],
        )),
{
    lemma_entries_well_formed(text, 0, Seq::empty());
    match entries(text, 0, Seq::empty()) {
        Err(_) => {},
        Ok(list) => {
            if table_map(list).contains_key(key) {
                lemma_table_value(list, key);
            }
        },
    }
}

/// Building twice from the same files gives stores that have the same
/// message for every locale, key and arguments.
pub proof fn lemma_rebuild_formats_alike(
    files: Seq<FileView>,
    first: StoreMap,
    second: StoreMap,
    lang: Seq<char>,
    key: Seq<char>,
    args: Map<Seq<char>, ArgValueView>,
)
    requires
        built(files) == Ok::<StoreMap, BuildErrorView>(first),
        built(files) == Ok::<StoreMap, BuildErrorView>(second),
    ensures
        message(first, lang, key, args) == message(second, lang, key, args),
{
}

} // verus!
