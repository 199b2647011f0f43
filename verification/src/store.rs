//! The store: the bundles of all locales, built once from the resource files
//! that were read and never changed afterwards.

use crate::bundle::Bundle;
use crate::compiler::{compile, ParseError};
use crate::grammar::{compiled, ParseReason};
use crate::pattern::SegmentView;
use crate::table::{find_last, lemma_found, table_map};
use vstd::prelude::*;

verus! {

/// The model of a bundle: a map from message key to pattern.
pub type BundleMap = Map<Seq<char>, Seq<SegmentView>>;

/// The model of a store: a map from locale tag to bundle.
pub type StoreMap = Map<Seq<char>, BundleMap>;

/// A resource file as it came from the disk.
#[derive(Clone, Debug, PartialEq, Eq)]
pub struct LoadedFile {
    /// The locale tag that the file's name gives.
    pub locale: String,
    /// The text of the file, or `None` if it could not be read.
    pub content: Option<String>,
}

/// The model of a [`LoadedFile`].
pub ghost struct FileView {
    pub locale: Seq<char>,
    pub content: Option<Seq<char>>,
}

impl LoadedFile {
    pub open spec fn view(&self) -> FileView {
        FileView {
            locale: self.locale@,
            content: match self.content {
                Some(text) => Some(text@),
                None => None,
            },
        }
    }
}

/// The models of the files, in order.
pub open spec fn files_view(files: Seq<LoadedFile>) -> Seq<FileView> {
    Seq::new(files.len(), |i: int| files[i]@)
}

/// What could not be read.
#[derive(Clone, Debug, PartialEq, Eq)]
pub enum IoError {
    /// The resource directory.
    Directory,
    /// The resource file of this locale.
    File(String),
}

/// Why no store could be built.
#[derive(Clone, Debug, PartialEq, Eq)]
pub enum BuildError {
    /// The directory or a resource file could not be read.
    Io(IoError),
    /// The resource of this locale is malformed.
    Parse(String, ParseError),
}

/// The model of a [`BuildError`].
pub ghost enum BuildErrorView {
    Directory,
    File(Seq<char>),
    Parse(Seq<char>, nat, ParseReason),
}

impl BuildError {
    /// A copy of the error.
    pub fn duplicate(&self) -> (r: BuildError)
        ensures
            r@ == self@,
    {
        match self {
            BuildError::Io(IoError::Directory) => BuildError::Io(IoError::Directory),
            BuildError::Io(IoError::File(locale)) => BuildError::Io(IoError::File(locale.clone())),
            BuildError::Parse(locale, e) => BuildError::Parse(locale.clone(), *e),
        }
    }

    pub open spec fn view(&self) -> BuildErrorView {
        match self {
            BuildError::Io(IoError::Directory) => BuildErrorView::Directory,
            BuildError::Io(IoError::File(locale)) => BuildErrorView::File(locale@),
            BuildError::Parse(locale, e) => BuildErrorView::Parse(
                locale@,
                e.line as nat,
                e.reason,
            ),
        }
    }
}

/// The position of the first file at or after `from` that could not be
/// read.
pub open spec fn first_unreadable(files: Seq<FileView>, from: int) -> Option<int>
    decreases files.len() - from,
{
    if !(0 <= from < files.len()) {
        None
    } else if files[from].content is None {
        Some(from)
    } else {
        first_unreadable(files, from + 1)
    }
}

/// The store that the files from position `i` on add to `acc`. The first
/// file that does not compile fails the whole build; of two files for one
/// locale the later one stays.
pub open spec fn built_from(files: Seq<FileView>, i: int, acc: StoreMap) -> Result<
    StoreMap,
    BuildErrorView,
>
    decreases files.len() - i,
{
    if !(0 <= i < files.len()) {
        Ok(acc)
    } else {
        match files[i].content {
            None => Err(BuildErrorView::File(files[i].locale)),
            Some(text) => match compiled(text) {
                Err((line, reason)) => Err(BuildErrorView::Parse(files[i].locale, line, reason)),
                Ok(bundle) => built_from(files, i + 1, acc.insert(files[i].locale, bundle)),
            },
        }
    }
}

/// The store that the files build. Reading comes before compiling: a file
/// that could not be read fails the build, whatever the other files hold;
/// where all were read, the first that does not compile fails it.
pub open spec fn built(files: Seq<FileView>) -> Result<StoreMap, BuildErrorView> {
    match first_unreadable(files, 0) {
        Some(k) => Err(BuildErrorView::File(files[k].locale)),
        None => built_from(files, 0, Map::empty()),
    }
}

/// The bundles of all locales.
#[derive(Debug)]
pub struct BundleStore {
    bundles: Vec<(String, Bundle)>,
}

/// The model of what a build left behind: the store, or why there is none.
pub open spec fn outcome_view(outcome: Result<BundleStore, BuildError>) -> Result<
    StoreMap,
    BuildErrorView,
> {
    match outcome {
        Ok(store) => Ok(store@),
        Err(e) => Err(e@),
    }
}

/// The entries of a store, each by its model.
pub open spec fn store_entries(bundles: Seq<(String, Bundle)>) -> Seq<(Seq<char>, BundleMap)> {
    Seq::new(bundles.len(), |i: int| (bundles[i].0@, bundles[i].1@))
}

impl BundleStore {
    /// The store as a map from locale tag to bundle.
    pub closed spec fn view(&self) -> StoreMap {
        table_map(store_entries(self.bundles@))
    }

    /// Builds the store from the resource files that were read.
    pub fn build(files: &Vec<LoadedFile>) -> (r: Result<BundleStore, BuildError>)
        ensures
            match r {
                Ok(store) => built(files_view(files@)) == Ok::<StoreMap, BuildErrorView>(store@),
                Err(e) => built(files_view(files@)) == Err::<StoreMap, BuildErrorView>(e@),
            },
    {
        let ghost model = files_view(files@);
        let mut k: usize = 0;
        while k < files.len()
            invariant
                k <= files.len(),
                model == files_view(files@),
                first_unreadable(model, 0) == first_unreadable(model, k as int),
            decreases files.len() - k,
        {
            assert(model[k as int] == files[k as int]@);
            if files[k].content.is_none() {
                return Err(BuildError::Io(IoError::File(files[k].locale.clone())));
            }
            k += 1;
        }
        let mut store = BundleStore { bundles: Vec::new() };
        let mut i: usize = 0;
        while i < files.len()
            invariant
                i <= files.len(),
                model == files_view(files@),
                first_unreadable(model, 0) is None,
                built(model) == built_from(model, i as int, store@),
            decreases files.len() - i,
        {
            let file = &files[i];
            assert(model[i as int] == file@);
            match &file.content {
                None => {
                    return Err(BuildError::Io(IoError::File(file.locale.clone())));
                },
                Some(text) => {
                    match compile(text.as_str()) {
                        Err(e) => {
                            return Err(BuildError::Parse(file.locale.clone(), e));
                        },
                        Ok(bundle) => {
                            let ghost before = store.bundles@;
                            store.bundles.push((file.locale.clone(), bundle));
                            proof {
                                assert(store_entries(store.bundles@).drop_last() =~= store_entries(
                                    before,
                                ));
                            }
                        },
                    }
                },
            }
            i += 1;
        }
        Ok(store)
    }

    /// The bundle of `locale`, if the store has one.
    pub fn get(&self, locale: &String) -> (r: Option<&Bundle>)
        ensures
            match r {
                Some(bundle) => self@.contains_key(locale@) && self@[locale@] == bundle@,
                None => !self@.contains_key(locale@),
            },
    {
        let found = find_last(&self.bundles, locale);
        proof {
            lemma_found(self.bundles@, store_entries(self.bundles@), locale@, found);
        }
        match found {
            Some(i) => Some(&self.bundles[i].1),
            None => None,
        }
    }
}

} // verus!
