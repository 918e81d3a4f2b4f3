//! The engine's data model: enumerated files, the cross-reference context,
//! the aggregated scan result, query responses, and the cancellation token.

use vstd::prelude::*;
use crate::FileType;
use crate::pathset::path_set_contents;
use crate::pathset::path_set_new;
use crate::pathset::path_set_insert;
use crate::pathset::path_set_contains;
use crate::pathset::path_set_absorb;

verus! {

/// One enumerated file handed to the engine: its path, its size in bytes,
/// and — for definition files the caller could read — its text lines.
pub struct ScanEntry {
    pub path: String,
    pub size: u64,
    pub lines: Option<Vec<String>>,
}

impl ScanEntry {
    /// The text lines of the entry, if any were read.
    pub open spec fn lines_view(&self) -> Option<Seq<Seq<char>>> {
        self.lines.deep_view()
    }
}

/// A recorded file: an absolute path and a byte count.
pub struct FileInfo {
    pub path: String,
    pub size: u64,
}

/// The mathematical value of a [`FileInfo`].
pub ghost struct FileRecord {
    pub path: Seq<char>,
    pub size: u64,
}

impl View for FileInfo {
    type V = FileRecord;

    open spec fn view(&self) -> FileRecord {
        FileRecord { path: self.path@, size: self.size }
    }
}

impl DeepView for FileInfo {
    type V = FileRecord;

    open spec fn deep_view(&self) -> FileRecord {
        self.view()
    }
}

/// The sum of the byte counts of a sequence of records.
pub open spec fn sum_sizes(s: Seq<FileRecord>) -> int
    decreases s.len(),
{
    if s.len() == 0 {
        0
    } else {
        sum_sizes(s.drop_last()) + s.last().size
    }
}

/// The cross-reference context: the sets of paths referenced as background
/// assets and as storyboard sprites. Built once per scan, then read-only.
pub struct ScanContext {
    pub backgrounds: ahash::AHashSet<String>,
    pub storyboard_elements: ahash::AHashSet<String>,
}

impl ScanContext {
    /// The background reference set.
    pub open spec fn bg(&self) -> Set<Seq<char>> {
        path_set_contents(self.backgrounds)
    }

    /// The storyboard-element reference set.
    pub open spec fn sb(&self) -> Set<Seq<char>> {
        path_set_contents(self.storyboard_elements)
    }

    pub fn new() -> (r: Self)
        ensures
            r.bg() == Set::<Seq<char>>::empty(),
            r.sb() == Set::<Seq<char>>::empty(),
    {
        Self { backgrounds: path_set_new(), storyboard_elements: path_set_new() }
    }

    pub fn insert_background(&mut self, path: String)
        ensures
            final(self).bg() == old(self).bg().insert(path@),
            final(self).sb() == old(self).sb(),
    {
        path_set_insert(&mut self.backgrounds, path);
    }

    pub fn insert_storyboard_element(&mut self, path: String)
        ensures
            final(self).sb() == old(self).sb().insert(path@),
            final(self).bg() == old(self).bg(),
    {
        path_set_insert(&mut self.storyboard_elements, path);
    }

    pub fn contains_background(&self, path: &str) -> (r: bool)
        ensures
            r == self.bg().contains(path@),
    {
        path_set_contains(&self.backgrounds, path)
    }

    pub fn contains_storyboard_element(&self, path: &str) -> (r: bool)
        ensures
            r == self.sb().contains(path@),
    {
        path_set_contains(&self.storyboard_elements, path)
    }

    /// The merge step of the parse phase: union both reference sets.
    pub fn merge(&mut self, other: ScanContext)
        ensures
            final(self).bg() == old(self).bg().union(other.bg()),
            final(self).sb() == old(self).sb().union(other.sb()),
    {
        path_set_absorb(&mut self.backgrounds, other.backgrounds);
        path_set_absorb(&mut self.storyboard_elements, other.storyboard_elements);
    }
}

/// The per-category record lists of a scan result. A category that matched
/// nothing holds an empty list.
pub struct CategoryLists {
    pub background_video: Vec<FileInfo>,
    pub background_image: Vec<FileInfo>,
    pub storyboard: Vec<FileInfo>,
    pub skin_element: Vec<FileInfo>,
    pub hitsound: Vec<FileInfo>,
}

/// The mathematical value of [`CategoryLists`]: one record sequence per
/// deletable category.
pub ghost struct CategoryRecords {
    pub background_video: Seq<FileRecord>,
    pub background_image: Seq<FileRecord>,
    pub storyboard: Seq<FileRecord>,
    pub skin_element: Seq<FileRecord>,
    pub hitsound: Seq<FileRecord>,
}

impl CategoryRecords {
    /// The records of one category; the catch-all bucket is never stored.
    pub open spec fn of(&self, t: FileType) -> Seq<FileRecord> {
        match t {
            FileType::BackgroundVideo => self.background_video,
            FileType::BackgroundImage => self.background_image,
            FileType::Storyboard => self.storyboard,
            FileType::SkinElement => self.skin_element,
            FileType::Hitsound => self.hitsound,
            FileType::Other => Seq::empty(),
        }
    }

    /// The same state with one category emptied.
    pub open spec fn cleared(&self, t: FileType) -> CategoryRecords {
        match t {
            FileType::BackgroundVideo => CategoryRecords {
                background_video: Seq::empty(),
                ..*self
            },
            FileType::BackgroundImage => CategoryRecords {
                background_image: Seq::empty(),
                ..*self
            },
            FileType::Storyboard => CategoryRecords { storyboard: Seq::empty(), ..*self },
            FileType::SkinElement => CategoryRecords { skin_element: Seq::empty(), ..*self },
            FileType::Hitsound => CategoryRecords { hitsound: Seq::empty(), ..*self },
            FileType::Other => *self,
        }
    }

    /// The sum of all recorded sizes across the categories.
    pub open spec fn total(&self) -> int {
        sum_sizes(self.background_video) + sum_sizes(self.background_image) + sum_sizes(
            self.storyboard,
        ) + sum_sizes(self.skin_element) + sum_sizes(self.hitsound)
    }

    /// Some category's records hold a record with this path.
    pub open spec fn holds_path(&self, t: FileType, p: Seq<char>) -> bool {
        exists|i: int| 0 <= i < self.of(t).len() && self.of(t)[i].path == p
    }

    /// The categories are pairwise disjoint as path sets.
    pub open spec fn disjoint(&self) -> bool {
        forall|t1: FileType, t2: FileType, p: Seq<char>|
            t1 != t2 && #[trigger] self.holds_path(t1, p) ==> !#[trigger] self.holds_path(t2, p)
    }
}

impl CategoryLists {
    /// The record sequences held by the five lists.
    pub open spec fn recs(&self) -> CategoryRecords {
        CategoryRecords {
            background_video: self.background_video.deep_view(),
            background_image: self.background_image.deep_view(),
            storyboard: self.storyboard.deep_view(),
            skin_element: self.skin_element.deep_view(),
            hitsound: self.hitsound.deep_view(),
        }
    }

    /// The list of one deletable category; the catch-all bucket has none.
    pub fn list_of(&self, t: FileType) -> (r: Option<&Vec<FileInfo>>)
        ensures
            match r {
                Some(v) => t != FileType::Other && v.deep_view() == self.recs().of(t),
                None => t == FileType::Other,
            },
    {
        match t {
            FileType::BackgroundVideo => Some(&self.background_video),
            FileType::BackgroundImage => Some(&self.background_image),
            FileType::Storyboard => Some(&self.storyboard),
            FileType::SkinElement => Some(&self.skin_element),
            FileType::Hitsound => Some(&self.hitsound),
            FileType::Other => None,
        }
    }

    /// Removes and returns one category's list, leaving it empty.
    pub fn take_list(&mut self, t: FileType) -> (r: Vec<FileInfo>)
        requires
            t != FileType::Other,
        ensures
            r.deep_view() == old(self).recs().of(t),
            final(self).recs() == old(self).recs().cleared(t),
    {
        let mut taken: Vec<FileInfo> = Vec::new();
        match t {
            FileType::BackgroundVideo => {
                core::mem::swap(&mut taken, &mut self.background_video);
                proof {
                    assert(self.background_video.deep_view() =~= Seq::<FileRecord>::empty());
                }
            },
            FileType::BackgroundImage => {
                core::mem::swap(&mut taken, &mut self.background_image);
                proof {
                    assert(self.background_image.deep_view() =~= Seq::<FileRecord>::empty());
                }
            },
            FileType::Storyboard => {
                core::mem::swap(&mut taken, &mut self.storyboard);
                proof {
                    assert(self.storyboard.deep_view() =~= Seq::<FileRecord>::empty());
                }
            },
            FileType::SkinElement => {
                core::mem::swap(&mut taken, &mut self.skin_element);
                proof {
                    assert(self.skin_element.deep_view() =~= Seq::<FileRecord>::empty());
                }
            },
            FileType::Hitsound => {
                core::mem::swap(&mut taken, &mut self.hitsound);
                proof {
                    assert(self.hitsound.deep_view() =~= Seq::<FileRecord>::empty());
                }
            },
            FileType::Other => {},
        }
        taken
    }
}

/// The aggregated, immutable-after-build result of one scan.
pub struct ScanResult {
    pub total_size: u64,
    pub files: CategoryLists,
}

impl ScanResult {
    /// The records of one category.
    pub open spec fn records_of(&self, t: FileType) -> Seq<FileRecord> {
        self.files.recs().of(t)
    }

    /// Well-formedness: the total size is the sum of all recorded sizes and
    /// the categories are pairwise disjoint as path sets.
    pub open spec fn wf(&self) -> bool {
        &&& self.total_size == self.files.recs().total()
        &&& self.files.recs().disjoint()
    }
}

/// Size and count of one category, as reported by the summary query.
#[derive(Debug, Clone, Copy, PartialEq, Eq, Structural)]
pub struct CategoryDetailSimple {
    pub total_size: u64,
    pub total_count: u64,
}

/// The summary over all five deletable categories.
#[derive(Debug, Clone, Copy, PartialEq, Eq, Structural)]
pub struct CategorySummaryResponse {
    pub background_video: CategoryDetailSimple,
    pub background_image: CategoryDetailSimple,
    pub storyboard: CategoryDetailSimple,
    pub skin_element: CategoryDetailSimple,
    pub hitsound: CategoryDetailSimple,
}

/// The records of one category, as returned by the data query.
pub struct CategoryDataResponse {
    pub files: Vec<FileInfo>,
}

/// The removals of one category performed by a bulk deletion.
pub struct CategoryRemoval {
    pub category: FileType,
    pub files: Vec<FileInfo>,
}

/// The cooperative cancellation signal of one top-level operation. Once set
/// it stays set for the operation's lifetime.
#[derive(Debug, Clone, Copy)]
pub struct CancellationToken {
    cancelled: bool,
}

impl CancellationToken {
    pub closed spec fn spec_cancelled(&self) -> bool {
        self.cancelled
    }

    pub fn new() -> (r: Self)
        ensures
            !r.spec_cancelled(),
    {
        Self { cancelled: false }
    }

    pub fn cancel(&mut self)
        ensures
            final(self).spec_cancelled(),
    {
        self.cancelled = true;
    }

    pub fn is_cancelled(&self) -> (r: bool)
        ensures
            r == self.spec_cancelled(),
    {
        self.cancelled
    }
}

/// How a scan ended: fully completed, or cancelled before completion.
#[derive(Debug, Clone, Copy, PartialEq, Eq, Structural)]
pub enum ScanOutcome {
    Completed,
    Cancelled,
}

/// How a bulk deletion ended.
#[derive(Debug, Clone, Copy, PartialEq, Eq, Structural)]
pub enum DeleteOutcome {
    Completed,
    Cancelled,
}

} // verus!
