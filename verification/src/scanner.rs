//! Which entries of the resource directory are resource files, and for which
//! locale. A resource file is named `messages_<tag>.ftl`. A directory of
//! which an entry could not be listed was not read, and gives no files.

use crate::store::IoError;
use crate::text::{chars_of, text_between};
use vstd::prelude::*;

verus! {

/// What every resource file's name starts with.
pub open spec fn name_prefix() -> Seq<char> {
    seq!['m', 'e', 's', 's', 'a', 'g', 'e', 's', '_']
}

/// What every resource file's name ends with.
pub open spec fn name_suffix() -> Seq<char> {
    seq!['.', 'f', 't', 'l']
}

/// The locale tag of the resource file named `name`: what stands between the
/// prefix and the suffix, as it is. A file with another kind of name is no
/// resource file.
pub open spec fn resource_locale(name: Seq<char>) -> Option<Seq<char>> {
    if name.len() >= 13 && name.subrange(0, 9) == name_prefix() && name.subrange(
        name.len() - 4,
        name.len() as int,
    ) == name_suffix() {
        Some(name.subrange(9, name.len() - 4))
    } else {
        None
    }
}

/// The locale tag of the resource file named `name`, if it is one.
pub fn locale_of(name: &str) -> (r: Option<String>)
    ensures
        match r {
            Some(tag) => resource_locale(name@) == Some(tag@),
            None => resource_locale(name@) is None,
        },
{
    let v = chars_of(name);
    let n = v.len();
    if n < 13 {
        return None;
    }
    let starts = v[0] == 'm' && v[1] == 'e' && v[2] == 's' && v[3] == 's' && v[4] == 'a' && v[5]
        == 'g' && v[6] == 'e' && v[7] == 's' && v[8] == '_';
    let ends = v[n - 4] == '.' && v[n - 3] == 'f' && v[n - 2] == 't' && v[n - 1] == 'l';
    proof {
        let head = v@.subrange(0, 9);
        let tail = v@.subrange(n - 4, n as int);
        if starts {
            assert(head =~= name_prefix());
        } else {
            assert(head[0] == v[0] && head[1] == v[1] && head[2] == v[2] && head[3] == v[3]
                && head[4] == v[4] && head[5] == v[5] && head[6] == v[6] && head[7] == v[7]
                && head[8] == v[8]);
        }
        if ends {
            assert(tail =~= name_suffix());
        } else {
            assert(tail[0] == v[n - 4] && tail[1] == v[n - 3] && tail[2] == v[n - 2] && tail[3]
                == v[n - 1]);
        }
    }
    if starts && ends {
        Some(text_between(&v, 9, n - 4))
    } else {
        None
    }
}

/// One entry of the resource directory.
#[derive(Clone, Debug, PartialEq, Eq)]
pub struct DirEntry {
    /// The entry's name.
    pub name: String,
    /// Whether the entry is a directory.
    pub is_dir: bool,
}

/// A resource file that is to be read.
#[derive(Clone, Debug, PartialEq, Eq)]
pub struct ResourceFile {
    /// The file's name.
    pub name: String,
    /// The locale tag that the name gives.
    pub locale: String,
}

/// The model of a [`DirEntry`].
pub ghost struct DirEntryView {
    pub name: Seq<char>,
    pub is_dir: bool,
}

/// The model of a [`ResourceFile`].
pub ghost struct ResourceFileView {
    pub name: Seq<char>,
    pub locale: Seq<char>,
}

impl DirEntry {
    pub open spec fn view(&self) -> DirEntryView {
        DirEntryView { name: self.name@, is_dir: self.is_dir }
    }
}

impl ResourceFile {
    pub open spec fn view(&self) -> ResourceFileView {
        ResourceFileView { name: self.name@, locale: self.locale@ }
    }
}

/// The models of the entries, in order.
pub open spec fn listing_view(listing: Seq<DirEntry>) -> Seq<DirEntryView> {
    Seq::new(listing.len(), |i: int| listing[i]@)
}

/// The models of the files, in order.
pub open spec fn resources_view(files: Seq<ResourceFile>) -> Seq<ResourceFileView> {
    Seq::new(files.len(), |i: int| files[i]@)
}

/// The resource files among the entries of a directory, in the order of the
/// listing. Directories are passed over, and so is every file whose name is
/// not that of a resource file.
pub open spec fn selected(listing: Seq<DirEntryView>) -> Seq<ResourceFileView>
    decreases listing.len(),
{
    if listing.len() == 0 {
        Seq::empty()
    } else {
        let entry = listing.last();
        let rest = selected(listing.drop_last());
        match resource_locale(entry.name) {
            Some(locale) => if entry.is_dir {
                rest
            } else {
                rest.push(ResourceFileView { name: entry.name, locale })
            },
            None => rest,
        }
    }
}

/// Picks the resource files out of a directory listing.
pub fn select_resources(listing: &Vec<DirEntry>) -> (r: Vec<ResourceFile>)
    ensures
        resources_view(r@) == selected(listing_view(listing@)),
{
    let mut out: Vec<ResourceFile> = Vec::new();
    let ghost model = listing_view(listing@);
    let mut i: usize = 0;
    assert(model.take(0) =~= Seq::empty());
    assert(resources_view(out@) =~= Seq::empty());
    while i < listing.len()
        invariant
            i <= listing.len(),
            model == listing_view(listing@),
            resources_view(out@) == selected(model.take(i as int)),
        decreases listing.len() - i,
    {
        let entry = &listing[i];
        proof {
            assert(model.take(i + 1).drop_last() =~= model.take(i as int));
            assert(model.take(i + 1).last() == entry@);
        }
        if !entry.is_dir {
            match locale_of(entry.name.as_str()) {
                Some(locale) => {
                    let file = ResourceFile { name: entry.name.clone(), locale };
                    proof {
                        assert(resources_view(out@.push(file)) =~= resources_view(out@).push(
                            file@,
                        ));
                    }
                    out.push(file);
                },
                None => {},
            }
        }
        i += 1;
    }
    assert(model.take(i as int) =~= model);
    out
}

/// The models of the entries of a listing in which some may have failed.
pub open spec fn outcomes_view(listing: Seq<Option<DirEntry>>) -> Seq<Option<DirEntryView>> {
    Seq::new(
        listing.len(),
        |i: int|
            match listing[i] {
                Some(entry) => Some(entry@),
                None => None,
            },
    )
}

/// Whether every entry of the directory was listed.
pub open spec fn all_listed(listing: Seq<Option<DirEntryView>>) -> bool {
    forall|i: int| 0 <= i < listing.len() ==> (#[trigger] listing[i]) is Some
}

/// The entries of a listing in which none failed.
pub open spec fn listed_entries(listing: Seq<Option<DirEntryView>>) -> Seq<DirEntryView> {
    Seq::new(listing.len(), |i: int| listing[i].unwrap())
}

/// The resource files of a directory, given for each entry what listing it
/// gave: the files that [`selected`] picks if every entry was listed, and
/// none at all, but the failure, if one was not.
pub open spec fn scanned(listing: Seq<Option<DirEntryView>>) -> Option<Seq<ResourceFileView>> {
    if all_listed(listing) {
        Some(selected(listed_entries(listing)))
    } else {
        None
    }
}

/// Picks the resource files out of a directory listing in which an entry
/// that could not be listed is `None`. One such entry fails the scan.
pub fn select_listed(listing: &Vec<Option<DirEntry>>) -> (r: Result<Vec<ResourceFile>, IoError>)
    ensures
        match r {
            Ok(files) => scanned(outcomes_view(listing@)) == Some(resources_view(files@)),
            Err(e) => e == IoError::Directory && scanned(outcomes_view(listing@)) is None,
        },
{
    let ghost model = outcomes_view(listing@);
    let mut entries: Vec<DirEntry> = Vec::new();
    let mut i: usize = 0;
    while i < listing.len()
        invariant
            i <= listing.len(),
            model == outcomes_view(listing@),
            entries.len() == i,
            forall|k: int| 0 <= k < i ==> (#[trigger] model[k]) == Some(entries[k]@),
        decreases listing.len() - i,
    {
        match &listing[i] {
            None => {
                assert(model[i as int] is None);
                return Err(IoError::Directory);
            },
            Some(entry) => {
                assert(model[i as int] == Some(entry@));
                entries.push(DirEntry { name: entry.name.clone(), is_dir: entry.is_dir });
            },
        }
        i += 1;
    }
    assert(listing_view(entries@) =~= listed_entries(model));
    Ok(select_resources(&entries))
}

} // verus!
