//! The scan/cross-reference/classify engine.
//!
//! The caller enumerates the file tree and reads the definition files'
//! lines; the engine runs the three phases — enumeration accounting,
//! reference extraction, classification — aggregates one [`ScanResult`],
//! answers the category queries, and performs the bookkeeping of bulk
//! deletion. Progress counters are drained through the rate-limited
//! emission methods; the caller forwards drained snapshots to its sink.

use vstd::prelude::*;
use crate::FileType;
use crate::counters::CommonCounterState;
use crate::counters::FilterCounterState;
use crate::counters::FilterCounts;
use crate::models::ScanEntry;
use crate::models::ScanContext;
use crate::models::ScanResult;
use crate::models::FileRecord;
use crate::models::sum_sizes;
use crate::models::CancellationToken;
use crate::models::ScanOutcome;
use crate::patterns::FilePatterns;
use crate::text::str_equal;
use crate::paths::parent_of;
use crate::patterns::lemma_definition_kinds_exclusive;
use crate::extract::parse_osu_lines;
use crate::extract::parse_storyboard_lines;
use crate::models::FileInfo;
use crate::models::CategoryLists;
use crate::classify::classify_spec;
use crate::classify::bg_refs_of;
use crate::classify::sb_refs_of;
use crate::classify::entry_bg_refs;
use crate::classify::entry_sb_refs;
use crate::classify::cat_records;
use crate::classify::count_definitions;
use crate::classify::total_kept;
use crate::classify::sum_all_sizes;
use crate::classify::lemma_count_definitions_len;
use crate::classify::lemma_cat_records_len;
use crate::classify::lemma_cat_records_classify;
use crate::classify::lemma_total_kept_le_sum_all;
use crate::classify::lemma_sum_all_prefix;
use crate::classify::lemma_total_partition;
use crate::classify::lemma_sum_sizes_nonneg;
use crate::classify::lemma_sum_sizes_prefix;
use crate::classify::lemma_cleared_total;
use crate::classify::lemma_category_le_total;
use crate::classify::lemma_cleared_disjoint;
use crate::models::CategoryRecords;
use crate::models::CategoryRemoval;
use crate::models::CategoryDetailSimple;
use crate::models::CategorySummaryResponse;
use crate::models::CategoryDataResponse;
use crate::models::DeleteOutcome;

verus! {

/// The category names of the wire vocabulary, resolved to categories.
/// Unrecognized names resolve to nothing and are ignored by the callers.
pub open spec fn resolve_category_spec(name: Seq<char>) -> Option<FileType> {
    if name == "background_video"@ {
        Some(FileType::BackgroundVideo)
    } else if name == "background_image"@ {
        Some(FileType::BackgroundImage)
    } else if name == "storyboard"@ {
        Some(FileType::Storyboard)
    } else if name == "skin_element"@ {
        Some(FileType::SkinElement)
    } else if name == "hitsound"@ {
        Some(FileType::Hitsound)
    } else {
        None
    }
}

/// Resolves a wire category name to its category.
pub fn resolve_category(name: &str) -> (r: Option<FileType>)
    ensures
        r == resolve_category_spec(name@),
{
    if str_equal(name, "background_video") {
        Some(FileType::BackgroundVideo)
    } else if str_equal(name, "background_image") {
        Some(FileType::BackgroundImage)
    } else if str_equal(name, "storyboard") {
        Some(FileType::Storyboard)
    } else if str_equal(name, "skin_element") {
        Some(FileType::SkinElement)
    } else if str_equal(name, "hitsound") {
        Some(FileType::Hitsound)
    } else {
        None
    }
}

/// A non-forced emission is due once the minimal interval has elapsed since
/// the last successful emission.
pub open spec fn emit_due(now: u64, last: u64, interval: u64) -> bool {
    last + interval <= now
}

/// The removal groups a bulk deletion produces: one group per recognized
/// name, in request order, holding what the category held at that moment.
/// A name repeated, or a name of an already emptied category, yields an
/// empty group.
pub open spec fn deletion_groups(
    names: Seq<Seq<char>>,
    state: CategoryRecords,
) -> Seq<(FileType, Seq<FileRecord>)>
    decreases names.len(),
{
    if names.len() == 0 {
        Seq::empty()
    } else {
        match resolve_category_spec(names[0]) {
            Some(t) => seq![(t, state.of(t))] + deletion_groups(
                names.drop_first(),
                state.cleared(t),
            ),
            None => deletion_groups(names.drop_first(), state),
        }
    }
}

/// The per-category records left after a bulk deletion: every recognized
/// name's category is emptied, the others are untouched.
pub open spec fn records_after_deletions(
    names: Seq<Seq<char>>,
    state: CategoryRecords,
) -> CategoryRecords
    decreases names.len(),
{
    if names.len() == 0 {
        state
    } else {
        match resolve_category_spec(names[0]) {
            Some(t) => records_after_deletions(names.drop_first(), state.cleared(t)),
            None => records_after_deletions(names.drop_first(), state),
        }
    }
}

/// The removal groups as pairs of category and record sequence.
pub open spec fn removals_view(s: Seq<CategoryRemoval>) -> Seq<(FileType, Seq<FileRecord>)> {
    s.map_values(|c: CategoryRemoval| (c.category, c.files.deep_view()))
}

/// Sums the sizes of a record list.
fn sum_file_sizes(v: &Vec<FileInfo>) -> (r: u64)
    requires
        sum_sizes(v.deep_view()) <= u64::MAX,
    ensures
        r == sum_sizes(v.deep_view()),
{
    let n = v.len();
    let mut total: u64 = 0;
    let mut i: usize = 0;
    while i < n
        invariant
            i <= n,
            n == v@.len(),
            v.deep_view().len() == n,
            sum_sizes(v.deep_view()) <= u64::MAX,
            total == sum_sizes(v.deep_view().take(i as int)),
        decreases n - i,
    {
        proof {
            assert(v.deep_view().take(i + 1).drop_last() =~= v.deep_view().take(i as int));
            assert(v.deep_view().take(i + 1).last() == v.deep_view()[i as int]);
            lemma_sum_sizes_prefix(v.deep_view(), i + 1);
        }
        total = total + v[i].size;
        i = i + 1;
    }
    proof {
        assert(v.deep_view().take(n as int) =~= v.deep_view());
    }
    total
}

fn push_record(v: &mut Vec<FileInfo>, info: FileInfo)
    ensures
        final(v).deep_view() == old(v).deep_view().push(info.deep_view()),
{
    v.push(info);
    proof {
        assert(v.deep_view() =~= old(v).deep_view().push(info.deep_view()));
    }
}

/// Copies a record list.
fn clone_file_list(v: &Vec<FileInfo>) -> (r: Vec<FileInfo>)
    ensures
        r.deep_view() == v.deep_view(),
{
    let n = v.len();
    let mut r: Vec<FileInfo> = Vec::new();
    let mut i: usize = 0;
    while i < n
        invariant
            i <= n,
            n == v@.len(),
            v.deep_view().len() == n,
            r.deep_view() == v.deep_view().take(i as int),
        decreases n - i,
    {
        let info = FileInfo { path: v[i].path.clone(), size: v[i].size };
        proof {
            assert(info.deep_view() == v.deep_view()[i as int]);
        }
        push_record(&mut r, info);
        proof {
            assert(r.deep_view() =~= v.deep_view().take(i + 1));
        }
        i = i + 1;
    }
    proof {
        assert(v.deep_view().take(n as int) =~= v.deep_view());
    }
    r
}

/// Size and count of one record list.
fn summarize_list(v: &Vec<FileInfo>) -> (d: CategoryDetailSimple)
    requires
        0 <= sum_sizes(v.deep_view()) <= u64::MAX,
    ensures
        d.total_size == sum_sizes(v.deep_view()),
        d.total_count == v@.len(),
{
    let total = sum_file_sizes(v);
    CategoryDetailSimple { total_size: total, total_count: v.len() as u64 }
}

/// The engine: counters, the emission rate limiter, and the stored result of
/// the last completed scan.
pub struct FileProcessor {
    emit_interval: u64,
    last_emit: u64,
    scan_counters: CommonCounterState,
    parse_counters: CommonCounterState,
    filter_counters: FilterCounterState,
    scan_result: Option<ScanResult>,
}

impl FileProcessor {
    /// The minimal interval between non-forced emissions, in microseconds.
    pub closed spec fn spec_emit_interval(&self) -> u64 {
        self.emit_interval
    }

    /// When the last non-forced emission was admitted, in microseconds.
    pub closed spec fn spec_last_emit(&self) -> u64 {
        self.last_emit
    }

    /// The stored result of the last completed scan, if any.
    pub closed spec fn spec_scan_result(&self) -> Option<ScanResult> {
        self.scan_result
    }

    /// The undrained enumeration count.
    pub closed spec fn spec_scan_count(&self) -> nat {
        self.scan_counters.spec_count()
    }

    /// The undrained parse count.
    pub closed spec fn spec_parse_count(&self) -> nat {
        self.parse_counters.spec_count()
    }

    /// The undrained decision count of one category.
    pub closed spec fn spec_filter_count(&self, t: FileType) -> nat {
        self.filter_counters.spec_counter(t)
    }

    /// The records one category holds; empty when no scan is stored.
    pub open spec fn result_records(&self, t: FileType) -> Seq<FileRecord> {
        match self.spec_scan_result() {
            Some(res) => res.records_of(t),
            None => Seq::empty(),
        }
    }

    /// A stored scan result is well-formed.
    pub open spec fn wf(&self) -> bool {
        match self.spec_scan_result() {
            Some(res) => res.wf(),
            None => true,
        }
    }

    pub fn new() -> (r: Self)
        ensures
            r.wf(),
            r.spec_scan_result() is None,
            r.spec_last_emit() == 0,
            r.spec_emit_interval() == 50000,
            r.spec_scan_count() == 0,
            r.spec_parse_count() == 0,
            forall|t: FileType| r.spec_filter_count(t) == 0,
    {
        Self {
            scan_result: None,
            last_emit: 0,
            emit_interval: 1000000 / 20,  // at most 20 emissions per second
            scan_counters: CommonCounterState::new(),
            parse_counters: CommonCounterState::new(),
            filter_counters: FilterCounterState::new(),
        }
    }

    /// Counts one enumerated file. The caller's directory walk calls this
    /// once per regular file it yields.
    pub fn record_scanned(&mut self)
        requires
            old(self).spec_scan_count() < usize::MAX,
        ensures
            final(self).spec_scan_count() == old(self).spec_scan_count() + 1,
            final(self).spec_parse_count() == old(self).spec_parse_count(),
            forall|t: FileType| final(self).spec_filter_count(t) == old(self).spec_filter_count(t),
            final(self).spec_scan_result() == old(self).spec_scan_result(),
            final(self).spec_last_emit() == old(self).spec_last_emit(),
            final(self).spec_emit_interval() == old(self).spec_emit_interval(),
    {
        self.scan_counters.increment();
    }

    /// Classifies one path against the merged reference context, counting
    /// the decision in the matching filter counter.
    pub fn categorize_file(
        &mut self,
        patterns: &FilePatterns,
        path: &str,
        context: &ScanContext,
    ) -> (t: FileType)
        requires
            patterns.wf(),
            forall|t: FileType| old(self).spec_filter_count(t) < usize::MAX,
        ensures
            t == classify_spec(path@, context.bg(), context.sb()),
            final(self).spec_filter_count(t) == old(self).spec_filter_count(t) + 1,
            forall|u: FileType| u != t ==> final(self).spec_filter_count(u) == old(
                self,
            ).spec_filter_count(u),
            final(self).spec_scan_count() == old(self).spec_scan_count(),
            final(self).spec_parse_count() == old(self).spec_parse_count(),
            final(self).spec_scan_result() == old(self).spec_scan_result(),
            final(self).spec_last_emit() == old(self).spec_last_emit(),
            final(self).spec_emit_interval() == old(self).spec_emit_interval(),
    {
        let name = crate::paths::file_name(path);
        let t = if patterns.is_video(path) {
            FileType::BackgroundVideo
        } else if context.contains_background(path) {
            FileType::BackgroundImage
        } else if context.contains_storyboard_element(path) || patterns.is_storyboard_file(path) {
            FileType::Storyboard
        } else if patterns.is_skin_element(name) {
            FileType::SkinElement
        } else if patterns.is_hitsound(name) {
            FileType::Hitsound
        } else {
            FileType::Other
        };
        proof {
            assert(old(self).spec_filter_count(t) < usize::MAX);
        }
        self.filter_counters.increment(t);
        t
    }

    /// Runs a full scan over the enumerated entries: counts the enumeration,
    /// builds the merged reference context from the readable definition
    /// files, classifies every entry against it, and replaces the stored
    /// scan result wholesale. A cancelled token leaves the engine untouched
    /// and yields the cancelled outcome instead.
    pub fn scan_directory(
        &mut self,
        entries: &Vec<ScanEntry>,
        token: &CancellationToken,
    ) -> (r: ScanOutcome)
        requires
            old(self).wf(),
            old(self).spec_scan_count() + entries@.len() <= usize::MAX,
            old(self).spec_parse_count() + entries@.len() <= usize::MAX,
            forall|t: FileType| old(self).spec_filter_count(t) + entries@.len() <= usize::MAX,
            sum_all_sizes(entries@) <= u64::MAX,
        ensures
            final(self).wf(),
            final(self).spec_last_emit() == old(self).spec_last_emit(),
            final(self).spec_emit_interval() == old(self).spec_emit_interval(),
            token.spec_cancelled() ==> r is Cancelled && *final(self) == *old(self),
            !token.spec_cancelled() ==> {
                let bg = bg_refs_of(entries@);
                let sb = sb_refs_of(entries@);
                &&& r is Completed
                &&& final(self).spec_scan_result() is Some
                &&& forall|t: FileType| t != FileType::Other
                    ==> final(self).result_records(t) == cat_records(entries@, bg, sb, t)
                &&& final(self).spec_scan_result()->Some_0.total_size == total_kept(
                    entries@,
                    bg,
                    sb,
                )
                &&& final(self).spec_scan_count() == old(self).spec_scan_count() + entries@.len()
                &&& final(self).spec_parse_count() == old(self).spec_parse_count()
                    + count_definitions(entries@)
                &&& forall|t: FileType| final(self).spec_filter_count(t) == old(
                    self,
                ).spec_filter_count(t) + cat_records(entries@, bg, sb, t).len()
            },
    {
        if token.is_cancelled() {
            return ScanOutcome::Cancelled;
        }
        let patterns = FilePatterns::new();
        let n = entries.len();

        // Phase 1: enumeration accounting.
        let mut i: usize = 0;
        while i < n
            invariant
                i <= n,
                n == entries@.len(),
                old(self).spec_scan_count() + n <= usize::MAX,
                self.spec_scan_count() == old(self).spec_scan_count() + i,
                self.spec_parse_count() == old(self).spec_parse_count(),
                forall|t: FileType| self.spec_filter_count(t) == old(self).spec_filter_count(t),
                self.spec_scan_result() == old(self).spec_scan_result(),
                self.spec_last_emit() == old(self).spec_last_emit(),
                self.spec_emit_interval() == old(self).spec_emit_interval(),
            decreases n - i,
        {
            self.scan_counters.increment();
            i = i + 1;
        }

        // Phase 2: build the merged reference context.
        let mut context = ScanContext::new();
        let mut i: usize = 0;
        while i < n
            invariant
                i <= n,
                n == entries@.len(),
                old(self).spec_parse_count() + n <= usize::MAX,
                context.bg() == bg_refs_of(entries@.take(i as int)),
                context.sb() == sb_refs_of(entries@.take(i as int)),
                self.spec_parse_count() == old(self).spec_parse_count() + count_definitions(
                    entries@.take(i as int),
                ),
                self.spec_scan_count() == old(self).spec_scan_count() + n,
                forall|t: FileType| self.spec_filter_count(t) == old(self).spec_filter_count(t),
                self.spec_scan_result() == old(self).spec_scan_result(),
                self.spec_last_emit() == old(self).spec_last_emit(),
                self.spec_emit_interval() == old(self).spec_emit_interval(),
            decreases n - i,
        {
            proof {
                assert(entries@.take(i + 1).drop_last() =~= entries@.take(i as int));
                assert(entries@.take(i + 1).last() == entries@[i as int]);
                lemma_count_definitions_len(entries@.take(i as int));
            }
            let e = &entries[i];
            let path = e.path.as_str();
            if patterns.is_beatmap_file(path) {
                self.parse_counters.increment();
                match &e.lines {
                    Some(ls) => {
                        let par = parent_of(path);
                        parse_osu_lines(ls, par, &mut context);
                        proof {
                            assert(e.lines_view() == Some(ls.deep_view()));
                        }
                    },
                    None => {
                        proof {
                            assert(context.bg().union(entry_bg_refs(*e)) =~= context.bg());
                        }
                    },
                }
                proof {
                    lemma_definition_kinds_exclusive(e.path@);
                    assert(entry_sb_refs(*e) =~= Set::<Seq<char>>::empty());
                    assert(context.bg() =~= bg_refs_of(entries@.take(i + 1)));
                    assert(context.sb() =~= sb_refs_of(entries@.take(i + 1)));
                }
            } else if patterns.is_storyboard_file(path) {
                self.parse_counters.increment();
                match &e.lines {
                    Some(ls) => {
                        let par = parent_of(path);
                        parse_storyboard_lines(ls, par, &mut context);
                        proof {
                            assert(e.lines_view() == Some(ls.deep_view()));
                        }
                    },
                    None => {
                        proof {
                            assert(context.sb().union(entry_sb_refs(*e)) =~= context.sb());
                        }
                    },
                }
                proof {
                    assert(entry_bg_refs(*e) =~= Set::<Seq<char>>::empty());
                    assert(context.bg() =~= bg_refs_of(entries@.take(i + 1)));
                    assert(context.sb() =~= sb_refs_of(entries@.take(i + 1)));
                }
            } else {
                proof {
                    assert(entry_bg_refs(*e) =~= Set::<Seq<char>>::empty());
                    assert(entry_sb_refs(*e) =~= Set::<Seq<char>>::empty());
                    assert(context.bg() =~= bg_refs_of(entries@.take(i + 1)));
                    assert(context.sb() =~= sb_refs_of(entries@.take(i + 1)));
                }
            }
            i = i + 1;
        }
        proof {
            assert(entries@.take(n as int) =~= entries@);
        }
        let ghost bgall = bg_refs_of(entries@);
        let ghost sball = sb_refs_of(entries@);

        // Phase 3: classify every entry and aggregate the result.
        let mut list_bv: Vec<FileInfo> = Vec::new();
        let mut list_bi: Vec<FileInfo> = Vec::new();
        let mut list_sb: Vec<FileInfo> = Vec::new();
        let mut list_se: Vec<FileInfo> = Vec::new();
        let mut list_hs: Vec<FileInfo> = Vec::new();
        let mut total: u64 = 0;
        let mut i: usize = 0;
        while i < n
            invariant
                i <= n,
                n == entries@.len(),
                patterns.wf(),
                context.bg() == bgall,
                context.sb() == sball,
                forall|t: FileType| old(self).spec_filter_count(t) + n <= usize::MAX,
                sum_all_sizes(entries@) <= u64::MAX,
                list_bv.deep_view() == cat_records(
                    entries@.take(i as int),
                    bgall,
                    sball,
                    FileType::BackgroundVideo,
                ),
                list_bi.deep_view() == cat_records(
                    entries@.take(i as int),
                    bgall,
                    sball,
                    FileType::BackgroundImage,
                ),
                list_sb.deep_view() == cat_records(
                    entries@.take(i as int),
                    bgall,
                    sball,
                    FileType::Storyboard,
                ),
                list_se.deep_view() == cat_records(
                    entries@.take(i as int),
                    bgall,
                    sball,
                    FileType::SkinElement,
                ),
                list_hs.deep_view() == cat_records(
                    entries@.take(i as int),
                    bgall,
                    sball,
                    FileType::Hitsound,
                ),
                total == total_kept(entries@.take(i as int), bgall, sball),
                forall|t: FileType| self.spec_filter_count(t) == old(self).spec_filter_count(t)
                    + cat_records(entries@.take(i as int), bgall, sball, t).len(),
                self.spec_scan_count() == old(self).spec_scan_count() + n,
                self.spec_parse_count() == old(self).spec_parse_count() + count_definitions(
                    entries@,
                ),
                self.spec_scan_result() == old(self).spec_scan_result(),
                self.spec_last_emit() == old(self).spec_last_emit(),
                self.spec_emit_interval() == old(self).spec_emit_interval(),
            decreases n - i,
        {
            proof {
                assert(entries@.take(i + 1).drop_last() =~= entries@.take(i as int));
                assert(entries@.take(i + 1).last() == entries@[i as int]);
                assert forall|t: FileType| self.spec_filter_count(t) < usize::MAX by {
                    lemma_cat_records_len(entries@.take(i as int), bgall, sball, t);
                }
            }
            let e = &entries[i];
            let t = self.categorize_file(&patterns, e.path.as_str(), &context);
            if t != FileType::Other {
                proof {
                    lemma_total_kept_le_sum_all(entries@.take(i + 1), bgall, sball);
                    lemma_sum_all_prefix(entries@, i + 1);
                }
                total = total + e.size;
                let info = FileInfo { path: e.path.clone(), size: e.size };
                match t {
                    FileType::BackgroundVideo => {
                        list_bv.push(info);
                        proof {
                            assert(list_bv.deep_view() =~= cat_records(
                                entries@.take(i + 1),
                                bgall,
                                sball,
                                FileType::BackgroundVideo,
                            ));
                        }
                    },
                    FileType::BackgroundImage => {
                        list_bi.push(info);
                        proof {
                            assert(list_bi.deep_view() =~= cat_records(
                                entries@.take(i + 1),
                                bgall,
                                sball,
                                FileType::BackgroundImage,
                            ));
                        }
                    },
                    FileType::Storyboard => {
                        list_sb.push(info);
                        proof {
                            assert(list_sb.deep_view() =~= cat_records(
                                entries@.take(i + 1),
                                bgall,
                                sball,
                                FileType::Storyboard,
                            ));
                        }
                    },
                    FileType::SkinElement => {
                        list_se.push(info);
                        proof {
                            assert(list_se.deep_view() =~= cat_records(
                                entries@.take(i + 1),
                                bgall,
                                sball,
                                FileType::SkinElement,
                            ));
                        }
                    },
                    FileType::Hitsound => {
                        list_hs.push(info);
                        proof {
                            assert(list_hs.deep_view() =~= cat_records(
                                entries@.take(i + 1),
                                bgall,
                                sball,
                                FileType::Hitsound,
                            ));
                        }
                    },
                    FileType::Other => {},
                }
            }
            i = i + 1;
        }
        proof {
            assert(entries@.take(n as int) =~= entries@);
        }
        let files = CategoryLists {
            background_video: list_bv,
            background_image: list_bi,
            storyboard: list_sb,
            skin_element: list_se,
            hitsound: list_hs,
        };
        let result = ScanResult { total_size: total, files };
        proof {
            lemma_total_partition(entries@, bgall, sball);
            assert forall|t1: FileType, t2: FileType, p: Seq<char>|
                t1 != t2 && #[trigger] result.files.recs().holds_path(t1, p)
                implies !#[trigger] result.files.recs().holds_path(t2, p) by {
                lemma_cat_records_classify(entries@, bgall, sball, t1);
                lemma_cat_records_classify(entries@, bgall, sball, t2);
                let i1 = choose|i: int|
                    0 <= i < result.files.recs().of(t1).len() && result.files.recs().of(
                        t1,
                    )[i].path == p;
                assert(classify_spec(p, bgall, sball) == t1);
                if result.files.recs().holds_path(t2, p) {
                    let i2 = choose|i: int|
                        0 <= i < result.files.recs().of(t2).len() && result.files.recs().of(
                            t2,
                        )[i].path == p;
                    assert(classify_spec(p, bgall, sball) == t2);
                }
            }
            assert(result.wf());
        }
        let ghost prev = *self;
        self.scan_result = Some(result);
        proof {
            assert forall|t: FileType|
                self.spec_filter_count(t) == old(self).spec_filter_count(t) + cat_records(
                    entries@,
                    bgall,
                    sball,
                    t,
                ).len() by {
                assert(self.spec_filter_count(t) == prev.spec_filter_count(t));
                assert(prev.spec_filter_count(t) == old(self).spec_filter_count(t) + cat_records(
                    entries@.take(n as int),
                    bgall,
                    sball,
                    t,
                ).len());
                assert(cat_records(entries@.take(n as int), bgall, sball, t) == cat_records(
                    entries@,
                    bgall,
                    sball,
                    t,
                ));
            }
        }
        ScanOutcome::Completed
    }

    /// The stored scan result, for callers that only read it.
    pub fn get_scan_result(&self) -> (r: &Option<ScanResult>)
        ensures
            *r == self.spec_scan_result(),
    {
        &self.scan_result
    }

    /// Size and count of every deletable category of the stored result, or
    /// nothing when no scan has completed yet.
    pub fn get_category_summary(&self) -> (r: Option<CategorySummaryResponse>)
        requires
            self.wf(),
        ensures
            r is Some <==> self.spec_scan_result() is Some,
            match r {
                Some(resp) => {
                    &&& resp.background_video.total_count == self.result_records(
                        FileType::BackgroundVideo,
                    ).len()
                    &&& resp.background_video.total_size == sum_sizes(
                        self.result_records(FileType::BackgroundVideo),
                    )
                    &&& resp.background_image.total_count == self.result_records(
                        FileType::BackgroundImage,
                    ).len()
                    &&& resp.background_image.total_size == sum_sizes(
                        self.result_records(FileType::BackgroundImage),
                    )
                    &&& resp.storyboard.total_count == self.result_records(
                        FileType::Storyboard,
                    ).len()
                    &&& resp.storyboard.total_size == sum_sizes(
                        self.result_records(FileType::Storyboard),
                    )
                    &&& resp.skin_element.total_count == self.result_records(
                        FileType::SkinElement,
                    ).len()
                    &&& resp.skin_element.total_size == sum_sizes(
                        self.result_records(FileType::SkinElement),
                    )
                    &&& resp.hitsound.total_count == self.result_records(
                        FileType::Hitsound,
                    ).len()
                    &&& resp.hitsound.total_size == sum_sizes(
                        self.result_records(FileType::Hitsound),
                    )
                },
                None => true,
            },
    {
        match &self.scan_result {
            None => None,
            Some(res) => {
                proof {
                    lemma_sum_sizes_nonneg(res.files.recs().background_video);
                    lemma_sum_sizes_nonneg(res.files.recs().background_image);
                    lemma_sum_sizes_nonneg(res.files.recs().storyboard);
                    lemma_sum_sizes_nonneg(res.files.recs().skin_element);
                    lemma_sum_sizes_nonneg(res.files.recs().hitsound);
                }
                Some(CategorySummaryResponse {
                    background_video: summarize_list(&res.files.background_video),
                    background_image: summarize_list(&res.files.background_image),
                    storyboard: summarize_list(&res.files.storyboard),
                    skin_element: summarize_list(&res.files.skin_element),
                    hitsound: summarize_list(&res.files.hitsound),
                })
            },
        }
    }

    /// The records of one named category of the stored result. Unknown
    /// names, like a missing result, yield nothing.
    pub fn get_category_data(&self, category: &str) -> (r: Option<CategoryDataResponse>)
        ensures
            match (self.spec_scan_result(), resolve_category_spec(category@)) {
                (Some(res), Some(t)) => match r {
                    Some(data) => data.files.deep_view() == self.result_records(t),
                    None => false,
                },
                _ => r is None,
            },
    {
        match &self.scan_result {
            None => None,
            Some(res) => {
                match resolve_category(category) {
                    None => None,
                    Some(t) => {
                        match res.files.list_of(t) {
                            Some(v) => Some(CategoryDataResponse { files: clone_file_list(v) }),
                            None => {
                                // a resolved name is never the catch-all bucket
                                proof {
                                    assert(false);
                                }
                                None
                            },
                        }
                    },
                }
            },
        }
    }

    /// Removes the records of every recognized named category from the
    /// stored result and returns them, group by group in request order, for
    /// the caller to delete from disk. Unrecognized names are skipped
    /// silently. A cancelled token removes nothing.
    pub fn delete_files(
        &mut self,
        categories: &Vec<String>,
        token: &CancellationToken,
    ) -> (r: (DeleteOutcome, Vec<CategoryRemoval>))
        requires
            old(self).wf(),
        ensures
            final(self).wf(),
            final(self).spec_scan_count() == old(self).spec_scan_count(),
            final(self).spec_parse_count() == old(self).spec_parse_count(),
            forall|t: FileType| final(self).spec_filter_count(t) == old(self).spec_filter_count(t),
            final(self).spec_last_emit() == old(self).spec_last_emit(),
            final(self).spec_emit_interval() == old(self).spec_emit_interval(),
            token.spec_cancelled() ==> r.0 is Cancelled && *final(self) == *old(self)
                && r.1@.len() == 0,
            !token.spec_cancelled() ==> {
                &&& r.0 is Completed
                &&& match old(self).spec_scan_result() {
                    None => final(self).spec_scan_result() is None && r.1@.len() == 0,
                    Some(res) => {
                        &&& final(self).spec_scan_result() is Some
                        &&& final(self).spec_scan_result()->Some_0.files.recs()
                            == records_after_deletions(categories.deep_view(), res.files.recs())
                        &&& removals_view(r.1@) == deletion_groups(
                            categories.deep_view(),
                            res.files.recs(),
                        )
                    },
                }
            },
    {
        if token.is_cancelled() {
            return (DeleteOutcome::Cancelled, Vec::new());
        }
        let mut groups: Vec<CategoryRemoval> = Vec::new();
        match &mut self.scan_result {
            None => (DeleteOutcome::Completed, groups),
            Some(res) => {
                let ghost init = res.files.recs();
                let ghost namesv = categories.deep_view();
                let m = categories.len();
                let mut i: usize = 0;
                proof {
                    assert(namesv.skip(0) =~= namesv);
                }
                while i < m
                    invariant
                        i <= m,
                        m == categories@.len(),
                        namesv.len() == m,
                        namesv == categories.deep_view(),
                        res.wf(),
                        removals_view(groups@) + deletion_groups(
                            namesv.skip(i as int),
                            res.files.recs(),
                        ) == deletion_groups(namesv, init),
                        records_after_deletions(namesv.skip(i as int), res.files.recs())
                            == records_after_deletions(namesv, init),
                    decreases m - i,
                {
                    proof {
                        assert(namesv.skip(i as int).drop_first() =~= namesv.skip(i + 1));
                        assert(namesv.skip(i as int)[0] == namesv[i as int]);
                        assert(namesv[i as int] == categories@[i as int]@);
                    }
                    let ghost pre = res.files.recs();
                    match resolve_category(categories[i].as_str()) {
                        Some(t) => {
                            proof {
                                assert(t != FileType::Other);
                                lemma_category_le_total(pre, t);
                            }
                            let taken = res.files.take_list(t);
                            let removed = sum_file_sizes(&taken);
                            res.total_size = res.total_size - removed;
                            proof {
                                lemma_cleared_total(pre, t);
                                lemma_cleared_disjoint(pre, t);
                            }
                            let ghost gv = removals_view(groups@);
                            groups.push(CategoryRemoval { category: t, files: taken });
                            proof {
                                assert(removals_view(groups@) =~= gv.push(
                                    (t, pre.of(t)),
                                ));
                                assert(gv.push((t, pre.of(t))) =~= gv + seq![(t, pre.of(t))]);
                                assert(removals_view(groups@) + deletion_groups(
                                    namesv.skip(i + 1),
                                    res.files.recs(),
                                ) =~= gv + deletion_groups(namesv.skip(i as int), pre));
                            }
                        },
                        None => {},
                    }
                    i = i + 1;
                }
                proof {
                    assert(namesv.skip(m as int) =~= Seq::<Seq<char>>::empty());
                    assert(deletion_groups(namesv.skip(m as int), res.files.recs())
                        =~= Seq::<(FileType, Seq<FileRecord>)>::empty());
                    assert(removals_view(groups@) + Seq::<(FileType, Seq<FileRecord>)>::empty()
                        =~= removals_view(groups@));
                }
                (DeleteOutcome::Completed, groups)
            },
        }
    }

    /// Drains the enumeration counter for emission. A forced attempt always
    /// drains; a non-forced one drains only when due, and then moves the
    /// shared emission timestamp forward. A zero count is never emitted.
    pub fn try_emit_scan_counts(&mut self, now: u64, force: bool) -> (r: Option<usize>)
        ensures
            final(self).spec_parse_count() == old(self).spec_parse_count(),
            forall|t: FileType| final(self).spec_filter_count(t) == old(self).spec_filter_count(t),
            final(self).spec_scan_result() == old(self).spec_scan_result(),
            final(self).spec_emit_interval() == old(self).spec_emit_interval(),
            force ==> final(self).spec_last_emit() == old(self).spec_last_emit(),
            force || emit_due(now, old(self).spec_last_emit(), old(self).spec_emit_interval())
                ==> {
                &&& final(self).spec_scan_count() == 0
                &&& r == (if old(self).spec_scan_count() > 0 {
                    Some(old(self).spec_scan_count() as usize)
                } else {
                    None::<usize>
                })
            },
            !force ==> {
                if emit_due(now, old(self).spec_last_emit(), old(self).spec_emit_interval()) {
                    final(self).spec_last_emit() == now
                } else {
                    *final(self) == *old(self) && r is None
                }
            },
    {
        if force {
            let count = self.scan_counters.get_and_reset();
            if count > 0 {
                Some(count)
            } else {
                None
            }
        } else if now >= self.last_emit && now - self.last_emit >= self.emit_interval {
            self.last_emit = now;
            let count = self.scan_counters.get_and_reset();
            if count > 0 {
                Some(count)
            } else {
                None
            }
        } else {
            None
        }
    }

    /// Drains the parse counter for emission, under the same rate limit.
    pub fn try_emit_parse_counts(&mut self, now: u64, force: bool) -> (r: Option<usize>)
        ensures
            final(self).spec_scan_count() == old(self).spec_scan_count(),
            forall|t: FileType| final(self).spec_filter_count(t) == old(self).spec_filter_count(t),
            final(self).spec_scan_result() == old(self).spec_scan_result(),
            final(self).spec_emit_interval() == old(self).spec_emit_interval(),
            force ==> final(self).spec_last_emit() == old(self).spec_last_emit(),
            force || emit_due(now, old(self).spec_last_emit(), old(self).spec_emit_interval())
                ==> {
                &&& final(self).spec_parse_count() == 0
                &&& r == (if old(self).spec_parse_count() > 0 {
                    Some(old(self).spec_parse_count() as usize)
                } else {
                    None::<usize>
                })
            },
            !force ==> {
                if emit_due(now, old(self).spec_last_emit(), old(self).spec_emit_interval()) {
                    final(self).spec_last_emit() == now
                } else {
                    *final(self) == *old(self) && r is None
                }
            },
    {
        if force {
            let count = self.parse_counters.get_and_reset();
            if count > 0 {
                Some(count)
            } else {
                None
            }
        } else if now >= self.last_emit && now - self.last_emit >= self.emit_interval {
            self.last_emit = now;
            let count = self.parse_counters.get_and_reset();
            if count > 0 {
                Some(count)
            } else {
                None
            }
        } else {
            None
        }
    }

    /// Drains the per-category filter counters for emission, under the same
    /// rate limit. An all-zero snapshot is never emitted.
    pub fn try_emit_filter_counts(&mut self, now: u64, force: bool) -> (r: Option<FilterCounts>)
        ensures
            final(self).spec_scan_count() == old(self).spec_scan_count(),
            final(self).spec_parse_count() == old(self).spec_parse_count(),
            final(self).spec_scan_result() == old(self).spec_scan_result(),
            final(self).spec_emit_interval() == old(self).spec_emit_interval(),
            force ==> final(self).spec_last_emit() == old(self).spec_last_emit(),
            force || emit_due(now, old(self).spec_last_emit(), old(self).spec_emit_interval())
                ==> {
                &&& forall|t: FileType| final(self).spec_filter_count(t) == 0
                &&& match r {
                    Some(counts) => {
                        &&& counts.background_video == old(self).spec_filter_count(
                            FileType::BackgroundVideo,
                        )
                        &&& counts.background_image == old(self).spec_filter_count(
                            FileType::BackgroundImage,
                        )
                        &&& counts.storyboard == old(self).spec_filter_count(FileType::Storyboard)
                        &&& counts.skin_element == old(self).spec_filter_count(
                            FileType::SkinElement,
                        )
                        &&& counts.hitsound == old(self).spec_filter_count(FileType::Hitsound)
                        &&& counts.other == old(self).spec_filter_count(FileType::Other)
                        &&& exists|t: FileType| old(self).spec_filter_count(t) > 0
                    },
                    None => forall|t: FileType| old(self).spec_filter_count(t) == 0,
                }
            },
            !force ==> {
                if emit_due(now, old(self).spec_last_emit(), old(self).spec_emit_interval()) {
                    final(self).spec_last_emit() == now
                } else {
                    *final(self) == *old(self) && r is None
                }
            },
    {
        if force {
            let counts = self.filter_counters.get_and_reset();
            if counts.background_video > 0 || counts.background_image > 0 || counts.storyboard > 0
                || counts.skin_element > 0 || counts.hitsound > 0 || counts.other > 0 {
                proof {
                    if counts.background_video > 0 {
                        assert(old(self).spec_filter_count(FileType::BackgroundVideo) > 0);
                    } else if counts.background_image > 0 {
                        assert(old(self).spec_filter_count(FileType::BackgroundImage) > 0);
                    } else if counts.storyboard > 0 {
                        assert(old(self).spec_filter_count(FileType::Storyboard) > 0);
                    } else if counts.skin_element > 0 {
                        assert(old(self).spec_filter_count(FileType::SkinElement) > 0);
                    } else if counts.hitsound > 0 {
                        assert(old(self).spec_filter_count(FileType::Hitsound) > 0);
                    } else {
                        assert(old(self).spec_filter_count(FileType::Other) > 0);
                    }
                }
                Some(counts)
            } else {
                None
            }
        } else if now >= self.last_emit && now - self.last_emit >= self.emit_interval {
            self.last_emit = now;
            let counts = self.filter_counters.get_and_reset();
            if counts.background_video > 0 || counts.background_image > 0 || counts.storyboard > 0
                || counts.skin_element > 0 || counts.hitsound > 0 || counts.other > 0 {
                proof {
                    if counts.background_video > 0 {
                        assert(old(self).spec_filter_count(FileType::BackgroundVideo) > 0);
                    } else if counts.background_image > 0 {
                        assert(old(self).spec_filter_count(FileType::BackgroundImage) > 0);
                    } else if counts.storyboard > 0 {
                        assert(old(self).spec_filter_count(FileType::Storyboard) > 0);
                    } else if counts.skin_element > 0 {
                        assert(old(self).spec_filter_count(FileType::SkinElement) > 0);
                    } else if counts.hitsound > 0 {
                        assert(old(self).spec_filter_count(FileType::Hitsound) > 0);
                    } else {
                        assert(old(self).spec_filter_count(FileType::Other) > 0);
                    }
                }
                Some(counts)
            } else {
                None
            }
        } else {
            None
        }
    }
}

} // verus!
