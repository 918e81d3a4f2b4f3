//! The engine's global laws, stated over the same spec functions its
//! contracts use.

use vstd::prelude::*;
use vstd::multiset::Multiset;
use vstd::seq_lib::commutative_foldr;
use vstd::seq_lib::lemma_fold_right_permutation;
use vstd::seq_lib::group_to_multiset_ensures;
use crate::FileType;
use crate::models::ScanEntry;
use crate::models::FileRecord;
use crate::models::CategoryRecords;
use crate::classify::classify_spec;
use crate::classify::entry_bg_refs;
use crate::classify::entry_sb_refs;
use crate::classify::bg_refs_of;
use crate::classify::sb_refs_of;
use crate::classify::cat_records;
use crate::classify::total_kept;
use crate::classify::lemma_total_partition;
use crate::classify::lemma_cat_records_classify;
use crate::processor::resolve_category_spec;
use crate::processor::deletion_groups;
use crate::processor::records_after_deletions;

verus! {

/// The per-category records a completed scan stores for this enumeration.
pub open spec fn scan_records(entries: Seq<ScanEntry>) -> CategoryRecords {
    let bg = bg_refs_of(entries);
    let sb = sb_refs_of(entries);
    CategoryRecords {
        background_video: cat_records(entries, bg, sb, FileType::BackgroundVideo),
        background_image: cat_records(entries, bg, sb, FileType::BackgroundImage),
        storyboard: cat_records(entries, bg, sb, FileType::Storyboard),
        skin_element: cat_records(entries, bg, sb, FileType::SkinElement),
        hitsound: cat_records(entries, bg, sb, FileType::Hitsound),
    }
}

/// For every completed scan, the category record sets are pairwise disjoint
/// as path sets, and the reported total size is the sum of the sizes of all
/// recorded files.
pub proof fn law_scan_result_well_formed(entries: Seq<ScanEntry>)
    ensures
        scan_records(entries).disjoint(),
        total_kept(entries, bg_refs_of(entries), sb_refs_of(entries)) == scan_records(
            entries,
        ).total(),
{
    let bg = bg_refs_of(entries);
    let sb = sb_refs_of(entries);
    let recs = scan_records(entries);
    lemma_total_partition(entries, bg, sb);
    assert forall|t1: FileType, t2: FileType, p: Seq<char>|
        t1 != t2 && #[trigger] recs.holds_path(t1, p) implies !#[trigger] recs.holds_path(
        t2,
        p,
    ) by {
        lemma_cat_records_classify(entries, bg, sb, t1);
        lemma_cat_records_classify(entries, bg, sb, t2);
        let i1 = choose|i: int| 0 <= i < recs.of(t1).len() && recs.of(t1)[i].path == p;
        assert(classify_spec(p, bg, sb) == t1);
        if recs.holds_path(t2, p) {
            let i2 = choose|i: int| 0 <= i < recs.of(t2).len() && recs.of(t2)[i].path == p;
            assert(classify_spec(p, bg, sb) == t2);
        }
    }
}

/// The reduction step of the background reference merge.
pub open spec fn bg_step_fn() -> spec_fn(ScanEntry, Set<Seq<char>>) -> Set<Seq<char>> {
    |e: ScanEntry, acc: Set<Seq<char>>| acc.union(entry_bg_refs(e))
}

/// The reduction step of the storyboard reference merge.
pub open spec fn sb_step_fn() -> spec_fn(ScanEntry, Set<Seq<char>>) -> Set<Seq<char>> {
    |e: ScanEntry, acc: Set<Seq<char>>| acc.union(entry_sb_refs(e))
}

/// The reduction step collecting one category's records as a multiset.
pub open spec fn cat_step_fn(bg: Set<Seq<char>>, sb: Set<Seq<char>>, t: FileType) -> spec_fn(
    ScanEntry,
    Multiset<FileRecord>,
) -> Multiset<FileRecord> {
    |e: ScanEntry, m: Multiset<FileRecord>|
        if classify_spec(e.path@, bg, sb) == t {
            m.insert(FileRecord { path: e.path@, size: e.size })
        } else {
            m
        }
}

/// The reduction step summing the kept sizes.
pub open spec fn total_step_fn(bg: Set<Seq<char>>, sb: Set<Seq<char>>) -> spec_fn(
    ScanEntry,
    int,
) -> int {
    |e: ScanEntry, a: int|
        a + if classify_spec(e.path@, bg, sb) != FileType::Other {
            e.size as int
        } else {
            0int
        }
}

proof fn lemma_bg_step_commutative()
    ensures
        commutative_foldr(bg_step_fn()),
{
    let f = bg_step_fn();
    assert forall|x: ScanEntry, y: ScanEntry, v: Set<Seq<char>>| #[trigger] f(x, f(y, v)) == f(
        y,
        f(x, v),
    ) by {
        assert(f(x, f(y, v)) =~= f(y, f(x, v)));
    }
}

proof fn lemma_sb_step_commutative()
    ensures
        commutative_foldr(sb_step_fn()),
{
    let f = sb_step_fn();
    assert forall|x: ScanEntry, y: ScanEntry, v: Set<Seq<char>>| #[trigger] f(x, f(y, v)) == f(
        y,
        f(x, v),
    ) by {
        assert(f(x, f(y, v)) =~= f(y, f(x, v)));
    }
}

proof fn lemma_cat_step_commutative(bg: Set<Seq<char>>, sb: Set<Seq<char>>, t: FileType)
    ensures
        commutative_foldr(cat_step_fn(bg, sb, t)),
{
    let f = cat_step_fn(bg, sb, t);
    assert forall|x: ScanEntry, y: ScanEntry, v: Multiset<FileRecord>| #[trigger] f(x, f(y, v))
        == f(y, f(x, v)) by {
        assert(f(x, f(y, v)) =~= f(y, f(x, v)));
    }
}

proof fn lemma_total_step_commutative(bg: Set<Seq<char>>, sb: Set<Seq<char>>)
    ensures
        commutative_foldr(total_step_fn(bg, sb)),
{
}

proof fn lemma_bg_refs_as_fold(s: Seq<ScanEntry>)
    ensures
        bg_refs_of(s) == s.fold_right(bg_step_fn(), Set::<Seq<char>>::empty()),
    decreases s.len(),
{
    let f = bg_step_fn();
    if s.len() == 0 {
    } else {
        lemma_bg_refs_as_fold(s.drop_last());
        lemma_bg_step_commutative();
        s.drop_last().lemma_fold_right_commute_one(s.last(), f, Set::<Seq<char>>::empty());
    }
}

proof fn lemma_sb_refs_as_fold(s: Seq<ScanEntry>)
    ensures
        sb_refs_of(s) == s.fold_right(sb_step_fn(), Set::<Seq<char>>::empty()),
    decreases s.len(),
{
    let f = sb_step_fn();
    if s.len() == 0 {
    } else {
        lemma_sb_refs_as_fold(s.drop_last());
        lemma_sb_step_commutative();
        s.drop_last().lemma_fold_right_commute_one(s.last(), f, Set::<Seq<char>>::empty());
    }
}

proof fn lemma_cat_records_as_fold(
    s: Seq<ScanEntry>,
    bg: Set<Seq<char>>,
    sb: Set<Seq<char>>,
    t: FileType,
)
    ensures
        cat_records(s, bg, sb, t).to_multiset() == s.fold_right(
            cat_step_fn(bg, sb, t),
            Multiset::<FileRecord>::empty(),
        ),
    decreases s.len(),
{
    broadcast use group_to_multiset_ensures;

    let f = cat_step_fn(bg, sb, t);
    if s.len() == 0 {
        assert(cat_records(s, bg, sb, t).to_multiset() =~= Multiset::<FileRecord>::empty());
    } else {
        lemma_cat_records_as_fold(s.drop_last(), bg, sb, t);
        lemma_cat_step_commutative(bg, sb, t);
        s.drop_last().lemma_fold_right_commute_one(s.last(), f, Multiset::<FileRecord>::empty());
    }
}

proof fn lemma_total_kept_as_fold(s: Seq<ScanEntry>, bg: Set<Seq<char>>, sb: Set<Seq<char>>)
    ensures
        total_kept(s, bg, sb) == s.fold_right(total_step_fn(bg, sb), 0int),
    decreases s.len(),
{
    let f = total_step_fn(bg, sb);
    if s.len() == 0 {
    } else {
        lemma_total_kept_as_fold(s.drop_last(), bg, sb);
        lemma_total_step_commutative(bg, sb);
        s.drop_last().lemma_fold_right_commute_one(s.last(), f, 0int);
    }
}

/// Classification is deterministic and order-independent: two enumerations
/// of the same files — the same entries, in any order — yield the same
/// reference sets, the same records per category up to list order, and the
/// same total size.
pub proof fn law_scan_order_independent(e1: Seq<ScanEntry>, e2: Seq<ScanEntry>)
    requires
        e1.to_multiset() == e2.to_multiset(),
    ensures
        bg_refs_of(e1) == bg_refs_of(e2),
        sb_refs_of(e1) == sb_refs_of(e2),
        forall|t: FileType| #[trigger] cat_records(
            e1,
            bg_refs_of(e1),
            sb_refs_of(e1),
            t,
        ).to_multiset() == cat_records(e2, bg_refs_of(e2), sb_refs_of(e2), t).to_multiset(),
        total_kept(e1, bg_refs_of(e1), sb_refs_of(e1)) == total_kept(
            e2,
            bg_refs_of(e2),
            sb_refs_of(e2),
        ),
{
    lemma_bg_refs_as_fold(e1);
    lemma_bg_refs_as_fold(e2);
    lemma_bg_step_commutative();
    lemma_fold_right_permutation(e1, e2, bg_step_fn(), Set::<Seq<char>>::empty());
    lemma_sb_refs_as_fold(e1);
    lemma_sb_refs_as_fold(e2);
    lemma_sb_step_commutative();
    lemma_fold_right_permutation(e1, e2, sb_step_fn(), Set::<Seq<char>>::empty());
    let bg = bg_refs_of(e1);
    let sb = sb_refs_of(e1);
    assert forall|t: FileType| #[trigger] cat_records(e1, bg_refs_of(e1), sb_refs_of(e1), t)
        .to_multiset() == cat_records(e2, bg_refs_of(e2), sb_refs_of(e2), t).to_multiset() by {
        lemma_cat_records_as_fold(e1, bg, sb, t);
        lemma_cat_records_as_fold(e2, bg, sb, t);
        lemma_cat_step_commutative(bg, sb, t);
        lemma_fold_right_permutation(e1, e2, cat_step_fn(bg, sb, t), Multiset::<
            FileRecord,
        >::empty());
    }
    lemma_total_kept_as_fold(e1, bg, sb);
    lemma_total_kept_as_fold(e2, bg, sb);
    lemma_total_step_commutative(bg, sb);
    lemma_fold_right_permutation(e1, e2, total_step_fn(bg, sb), 0int);
}

/// The priority rule: a file with a video extension is classified as a
/// background video even when its path is also in the background reference
/// set.
pub proof fn law_video_priority(path: Seq<char>, bg: Set<Seq<char>>, sb: Set<Seq<char>>)
    requires
        crate::patterns::is_video_spec(path),
        bg.contains(path),
    ensures
        classify_spec(path, bg, sb) == FileType::BackgroundVideo,
        classify_spec(path, bg, sb) != FileType::BackgroundImage,
{
}

/// Pattern matching ignores ASCII case: two file names that fold to the
/// same characters match the same skin and hitsound patterns.
pub proof fn law_patterns_case_insensitive(n1: Seq<char>, n2: Seq<char>)
    requires
        crate::text::lower(n1) == crate::text::lower(n2),
    ensures
        crate::patterns::is_skin_element_spec(n1) == crate::patterns::is_skin_element_spec(n2),
        crate::patterns::is_hitsound_spec(n1) == crate::patterns::is_hitsound_spec(n2),
{
}

/// A path with the storyboard-definition extension is classified as
/// storyboard even when no sprite line references it, as long as no earlier
/// rule claims it: such a path never has a video extension, so only
/// background membership can take precedence.
pub proof fn law_storyboard_extension_classified(
    path: Seq<char>,
    bg: Set<Seq<char>>,
    sb: Set<Seq<char>>,
)
    requires
        crate::patterns::is_storyboard_file_spec(path),
        !bg.contains(path),
    ensures
        classify_spec(path, bg, sb) == FileType::Storyboard,
{
    lemma_storyboard_ext_not_video(path);
}

/// A storyboard-definition extension is never a video extension.
proof fn lemma_storyboard_ext_not_video(path: Seq<char>)
    requires
        crate::patterns::is_storyboard_file_spec(path),
    ensures
        !crate::patterns::is_video_spec(path),
{
    reveal_strlit("osb");
    reveal_strlit("3gp");
    reveal_strlit("avi");
    reveal_strlit("flv");
    reveal_strlit("m4v");
    reveal_strlit("mkv");
    reveal_strlit("mov");
    reveal_strlit("mp4");
    reveal_strlit("mpeg");
    reveal_strlit("mpg");
    reveal_strlit("webm");
    reveal_strlit("wmv");
    let e = crate::patterns::storyboard_extension();
    if crate::patterns::is_video_spec(path) {
        let i = choose|i: int|
            0 <= i < crate::patterns::video_extension_list().len() && crate::text::ci_equal(
                e,
                crate::patterns::video_extension_list()[i],
            );
        let v = crate::patterns::video_extension_list()[i];
        assert(crate::text::lower(e).len() == 3);
        if v.len() == 3 {
            assert(crate::text::lower(e)[1] == crate::text::lower(v)[1]);
            assert(crate::text::lower(e)[1] == crate::text::lower_char('s'));
            assert(false);
        } else {
            assert(crate::text::lower(e).len() != crate::text::lower(v).len());
        }
    }
}

/// Deleting one recognized category removes exactly that category's records
/// and leaves every other category untouched.
pub proof fn law_delete_exactly_one_category(
    name: Seq<char>,
    t: FileType,
    state: CategoryRecords,
)
    requires
        resolve_category_spec(name) == Some(t),
    ensures
        records_after_deletions(seq![name], state) == state.cleared(t),
        records_after_deletions(seq![name], state).of(t) == Seq::<FileRecord>::empty(),
        forall|u: FileType| u != t ==> #[trigger] records_after_deletions(
            seq![name],
            state,
        ).of(u) == state.of(u),
        deletion_groups(seq![name], state) == seq![(t, state.of(t))],
{
    let names = seq![name];
    assert(names.drop_first() =~= Seq::<Seq<char>>::empty());
    assert(names[0] == name);
    assert(records_after_deletions(names, state) == records_after_deletions(
        names.drop_first(),
        state.cleared(t),
    ));
    assert(records_after_deletions(names.drop_first(), state.cleared(t)) == state.cleared(t));
    assert(deletion_groups(names, state) == seq![(t, state.of(t))] + deletion_groups(
        names.drop_first(),
        state.cleared(t),
    ));
    assert(deletion_groups(names.drop_first(), state.cleared(t)) =~= Seq::<
        (FileType, Seq<FileRecord>),
    >::empty());
    assert(seq![(t, state.of(t))] + Seq::<(FileType, Seq<FileRecord>)>::empty() =~= seq![
        (t, state.of(t)),
    ]);
}

} // verus!
