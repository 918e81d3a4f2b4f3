//! The classification rule and the ghost arithmetic of scan aggregation.

use vstd::prelude::*;
use crate::FileType;
use crate::models::ScanEntry;
use crate::models::FileRecord;
use crate::models::CategoryRecords;
use crate::models::sum_sizes;
use crate::paths::file_name_spec;
use crate::paths::parent_spec;
use crate::patterns::is_video_spec;
use crate::patterns::is_storyboard_file_spec;
use crate::patterns::is_beatmap_file_spec;
use crate::patterns::is_skin_element_spec;
use crate::patterns::is_hitsound_spec;
use crate::extract::beatmap_refs;
use crate::extract::storyboard_refs;

verus! {

/// The priority-ordered classification rule. Earlier rules win: a video
/// extension beats background membership, which beats storyboard membership
/// or the storyboard-definition extension, which beats the skin patterns,
/// which beat the hitsound patterns.
pub open spec fn classify_spec(
    path: Seq<char>,
    bg: Set<Seq<char>>,
    sb: Set<Seq<char>>,
) -> FileType {
    if is_video_spec(path) {
        FileType::BackgroundVideo
    } else if bg.contains(path) {
        FileType::BackgroundImage
    } else if sb.contains(path) || is_storyboard_file_spec(path) {
        FileType::Storyboard
    } else if is_skin_element_spec(file_name_spec(path)) {
        FileType::SkinElement
    } else if is_hitsound_spec(file_name_spec(path)) {
        FileType::Hitsound
    } else {
        FileType::Other
    }
}

/// The background paths contributed by one enumerated entry: those its lines
/// reference, when it is a readable beatmap-definition file.
pub open spec fn entry_bg_refs(e: ScanEntry) -> Set<Seq<char>> {
    match e.lines_view() {
        Some(ls) => if is_beatmap_file_spec(e.path@) {
            beatmap_refs(ls, parent_spec(e.path@))
        } else {
            Set::empty()
        },
        None => Set::empty(),
    }
}

/// The sprite paths contributed by one enumerated entry, when it is a
/// readable storyboard-definition file.
pub open spec fn entry_sb_refs(e: ScanEntry) -> Set<Seq<char>> {
    match e.lines_view() {
        Some(ls) => if is_storyboard_file_spec(e.path@) {
            storyboard_refs(ls, parent_spec(e.path@))
        } else {
            Set::empty()
        },
        None => Set::empty(),
    }
}

/// The merged background reference set of a scan.
pub open spec fn bg_refs_of(entries: Seq<ScanEntry>) -> Set<Seq<char>>
    decreases entries.len(),
{
    if entries.len() == 0 {
        Set::empty()
    } else {
        bg_refs_of(entries.drop_last()).union(entry_bg_refs(entries.last()))
    }
}

/// The merged storyboard reference set of a scan.
pub open spec fn sb_refs_of(entries: Seq<ScanEntry>) -> Set<Seq<char>>
    decreases entries.len(),
{
    if entries.len() == 0 {
        Set::empty()
    } else {
        sb_refs_of(entries.drop_last()).union(entry_sb_refs(entries.last()))
    }
}

/// An entry whose extension marks a definition file to be parsed.
pub open spec fn is_definition_entry(e: ScanEntry) -> bool {
    is_beatmap_file_spec(e.path@) || is_storyboard_file_spec(e.path@)
}

/// How many enumerated entries are definition files.
pub open spec fn count_definitions(entries: Seq<ScanEntry>) -> int
    decreases entries.len(),
{
    if entries.len() == 0 {
        0
    } else {
        count_definitions(entries.drop_last()) + if is_definition_entry(entries.last()) {
            1int
        } else {
            0int
        }
    }
}

/// The records of the entries classified `t`, in enumeration order.
pub open spec fn cat_records(
    entries: Seq<ScanEntry>,
    bg: Set<Seq<char>>,
    sb: Set<Seq<char>>,
    t: FileType,
) -> Seq<FileRecord>
    decreases entries.len(),
{
    if entries.len() == 0 {
        Seq::empty()
    } else {
        let rest = cat_records(entries.drop_last(), bg, sb, t);
        let e = entries.last();
        if classify_spec(e.path@, bg, sb) == t {
            rest.push(FileRecord { path: e.path@, size: e.size })
        } else {
            rest
        }
    }
}

/// The sum of the sizes of all enumerated entries.
pub open spec fn sum_all_sizes(entries: Seq<ScanEntry>) -> int
    decreases entries.len(),
{
    if entries.len() == 0 {
        0
    } else {
        sum_all_sizes(entries.drop_last()) + entries.last().size
    }
}

/// The sum of the sizes of the entries not classified into the catch-all
/// bucket: the total size a completed scan reports.
pub open spec fn total_kept(entries: Seq<ScanEntry>, bg: Set<Seq<char>>, sb: Set<Seq<char>>) -> int
    decreases entries.len(),
{
    if entries.len() == 0 {
        0
    } else {
        total_kept(entries.drop_last(), bg, sb) + if classify_spec(
            entries.last().path@,
            bg,
            sb,
        ) != FileType::Other {
            entries.last().size as int
        } else {
            0int
        }
    }
}

pub proof fn lemma_sum_sizes_nonneg(s: Seq<FileRecord>)
    ensures
        sum_sizes(s) >= 0,
    decreases s.len(),
{
    if s.len() > 0 {
        lemma_sum_sizes_nonneg(s.drop_last());
    }
}

pub proof fn lemma_sum_sizes_push(s: Seq<FileRecord>, r: FileRecord)
    ensures
        sum_sizes(s.push(r)) == sum_sizes(s) + r.size,
{
    assert(s.push(r).drop_last() =~= s);
}

/// A prefix of the records sums to no more than the whole.
pub proof fn lemma_sum_sizes_prefix(s: Seq<FileRecord>, i: int)
    requires
        0 <= i <= s.len(),
    ensures
        sum_sizes(s.take(i)) <= sum_sizes(s),
    decreases s.len() - i,
{
    if i == s.len() {
        assert(s.take(i) =~= s);
    } else {
        assert(s.take(i + 1).drop_last() =~= s.take(i));
        assert(s.take(i + 1).last() == s[i]);
        lemma_sum_sizes_prefix(s, i + 1);
    }
}

/// A prefix of the entries sums to no more than the whole enumeration.
pub proof fn lemma_sum_all_prefix(entries: Seq<ScanEntry>, i: int)
    requires
        0 <= i <= entries.len(),
    ensures
        sum_all_sizes(entries.take(i)) <= sum_all_sizes(entries),
    decreases entries.len() - i,
{
    if i == entries.len() {
        assert(entries.take(i) =~= entries);
    } else {
        assert(entries.take(i + 1).drop_last() =~= entries.take(i));
        assert(entries.take(i + 1).last() == entries[i]);
        lemma_sum_all_prefix(entries, i + 1);
    }
}

/// What a scan keeps weighs no more than everything it enumerated.
pub proof fn lemma_total_kept_le_sum_all(
    entries: Seq<ScanEntry>,
    bg: Set<Seq<char>>,
    sb: Set<Seq<char>>,
)
    ensures
        total_kept(entries, bg, sb) <= sum_all_sizes(entries),
    decreases entries.len(),
{
    if entries.len() > 0 {
        lemma_total_kept_le_sum_all(entries.drop_last(), bg, sb);
    }
}

/// No category records more entries than were enumerated.
pub proof fn lemma_cat_records_len(
    entries: Seq<ScanEntry>,
    bg: Set<Seq<char>>,
    sb: Set<Seq<char>>,
    t: FileType,
)
    ensures
        0 <= cat_records(entries, bg, sb, t).len() <= entries.len(),
    decreases entries.len(),
{
    if entries.len() > 0 {
        lemma_cat_records_len(entries.drop_last(), bg, sb, t);
    }
}

/// No more entries count as definitions than were enumerated.
pub proof fn lemma_count_definitions_len(entries: Seq<ScanEntry>)
    ensures
        0 <= count_definitions(entries) <= entries.len(),
    decreases entries.len(),
{
    if entries.len() > 0 {
        lemma_count_definitions_len(entries.drop_last());
    }
}

/// Every record of a category classifies into that category.
pub proof fn lemma_cat_records_classify(
    entries: Seq<ScanEntry>,
    bg: Set<Seq<char>>,
    sb: Set<Seq<char>>,
    t: FileType,
)
    ensures
        forall|i: int| 0 <= i < cat_records(entries, bg, sb, t).len()
            ==> classify_spec(#[trigger] cat_records(entries, bg, sb, t)[i].path, bg, sb) == t,
    decreases entries.len(),
{
    if entries.len() > 0 {
        lemma_cat_records_classify(entries.drop_last(), bg, sb, t);
    }
}

/// The kept total is exactly the sum over the five recorded categories.
pub proof fn lemma_total_partition(
    entries: Seq<ScanEntry>,
    bg: Set<Seq<char>>,
    sb: Set<Seq<char>>,
)
    ensures
        total_kept(entries, bg, sb) == sum_sizes(
            cat_records(entries, bg, sb, FileType::BackgroundVideo),
        ) + sum_sizes(cat_records(entries, bg, sb, FileType::BackgroundImage)) + sum_sizes(
            cat_records(entries, bg, sb, FileType::Storyboard),
        ) + sum_sizes(cat_records(entries, bg, sb, FileType::SkinElement)) + sum_sizes(
            cat_records(entries, bg, sb, FileType::Hitsound),
        ),
    decreases entries.len(),
{
    if entries.len() > 0 {
        lemma_total_partition(entries.drop_last(), bg, sb);
        let e = entries.last();
        let r = FileRecord { path: e.path@, size: e.size };
        let c = classify_spec(e.path@, bg, sb);
        if c != FileType::Other {
            lemma_sum_sizes_push(cat_records(entries.drop_last(), bg, sb, c), r);
        }
    }
}

/// Clearing one category removes exactly that category's weight.
pub proof fn lemma_cleared_total(state: CategoryRecords, t: FileType)
    requires
        t != FileType::Other,
    ensures
        state.cleared(t).total() == state.total() - sum_sizes(state.of(t)),
{
    assert(sum_sizes(Seq::<FileRecord>::empty()) == 0);
}

/// One category weighs no more than all of them together.
pub proof fn lemma_category_le_total(state: CategoryRecords, t: FileType)
    requires
        t != FileType::Other,
    ensures
        0 <= sum_sizes(state.of(t)) <= state.total(),
{
    lemma_sum_sizes_nonneg(state.background_video);
    lemma_sum_sizes_nonneg(state.background_image);
    lemma_sum_sizes_nonneg(state.storyboard);
    lemma_sum_sizes_nonneg(state.skin_element);
    lemma_sum_sizes_nonneg(state.hitsound);
}

/// Clearing a category preserves pairwise disjointness.
pub proof fn lemma_cleared_disjoint(state: CategoryRecords, t: FileType)
    requires
        state.disjoint(),
    ensures
        state.cleared(t).disjoint(),
{
    let c = state.cleared(t);
    assert forall|t1: FileType, t2: FileType, p: Seq<char>|
        t1 != t2 && #[trigger] c.holds_path(t1, p) implies !#[trigger] c.holds_path(t2, p) by {
        assert(c.holds_path(t1, p) ==> state.holds_path(t1, p)) by {
            if c.holds_path(t1, p) {
                let i = choose|i: int| 0 <= i < c.of(t1).len() && c.of(t1)[i].path == p;
                assert(c.of(t1) == state.of(t1));
                assert(state.of(t1)[i].path == p);
            }
        }
        if c.holds_path(t2, p) {
            let i = choose|i: int| 0 <= i < c.of(t2).len() && c.of(t2)[i].path == p;
            assert(c.of(t2) == state.of(t2));
            assert(state.of(t2)[i].path == p);
            assert(state.holds_path(t2, p));
        }
    }
}

} // verus!
