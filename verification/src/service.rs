//! The operation layer around the engine: one engine instance, and the
//! active-operation slot holding the current operation's cancellation token.
//! At most one mutating operation runs at a time against the stored result;
//! a fresh token is installed per top-level operation and cleared when the
//! operation returns.

use vstd::prelude::*;
use crate::FileType;
use crate::models::ScanEntry;
use crate::models::FileRecord;
use crate::models::sum_sizes;
use crate::models::CancellationToken;
use crate::models::ScanOutcome;
use crate::models::DeleteOutcome;
use crate::models::CategoryRemoval;
use crate::models::CategorySummaryResponse;
use crate::models::CategoryDataResponse;
use crate::processor::FileProcessor;
use crate::processor::resolve_category_spec;
use crate::processor::deletion_groups;
use crate::processor::records_after_deletions;
use crate::processor::removals_view;
use crate::classify::bg_refs_of;
use crate::classify::sb_refs_of;
use crate::classify::cat_records;
use crate::classify::count_definitions;
use crate::classify::total_kept;
use crate::classify::sum_all_sizes;

verus! {

/// The service owning the engine and the active-operation slot.
pub struct FileProcessorService {
    file_processor: FileProcessor,
    active_operation: Option<CancellationToken>,
}

impl FileProcessorService {
    /// The engine held by the service.
    pub closed spec fn spec_processor(&self) -> FileProcessor {
        self.file_processor
    }

    /// The token of the operation in flight, if any.
    pub closed spec fn spec_active_operation(&self) -> Option<CancellationToken> {
        self.active_operation
    }

    pub open spec fn wf(&self) -> bool {
        self.spec_processor().wf()
    }

    pub fn new() -> (r: Self)
        ensures
            r.wf(),
            r.spec_processor().spec_scan_result() is None,
            r.spec_processor().spec_scan_count() == 0,
            r.spec_processor().spec_parse_count() == 0,
            forall|t: FileType| r.spec_processor().spec_filter_count(t) == 0,
            r.spec_active_operation() is None,
    {
        Self { file_processor: FileProcessor::new(), active_operation: None }
    }

    /// Signals the active operation's token, if one is active; cancelling
    /// with no operation in flight is a no-op.
    pub fn cancel_operation(&mut self)
        ensures
            final(self).spec_processor() == old(self).spec_processor(),
            match old(self).spec_active_operation() {
                Some(_) => match final(self).spec_active_operation() {
                    Some(tok) => tok.spec_cancelled(),
                    None => false,
                },
                None => final(self).spec_active_operation() is None,
            },
    {
        match &mut self.active_operation {
            Some(token) => token.cancel(),
            None => {},
        }
    }

    /// Runs a scan over the caller's enumeration as the active operation.
    /// The fresh token cannot have been signalled when the phases start, so
    /// the sequential scan runs to completion and replaces the stored
    /// result.
    pub fn scan_directory(&mut self, entries: &Vec<ScanEntry>) -> (r: ScanOutcome)
        requires
            old(self).wf(),
            old(self).spec_processor().spec_scan_count() + entries@.len() <= usize::MAX,
            old(self).spec_processor().spec_parse_count() + entries@.len() <= usize::MAX,
            forall|t: FileType| old(self).spec_processor().spec_filter_count(t) + entries@.len()
                <= usize::MAX,
            sum_all_sizes(entries@) <= u64::MAX,
        ensures
            final(self).wf(),
            final(self).spec_active_operation() is None,
            r is Completed,
            final(self).spec_processor().spec_scan_result() is Some,
            forall|t: FileType| t != FileType::Other
                ==> final(self).spec_processor().result_records(t) == cat_records(
                    entries@,
                    bg_refs_of(entries@),
                    sb_refs_of(entries@),
                    t,
                ),
            final(self).spec_processor().spec_scan_result()->Some_0.total_size == total_kept(
                entries@,
                bg_refs_of(entries@),
                sb_refs_of(entries@),
            ),
            final(self).spec_processor().spec_scan_count() == old(
                self,
            ).spec_processor().spec_scan_count() + entries@.len(),
            final(self).spec_processor().spec_parse_count() == old(
                self,
            ).spec_processor().spec_parse_count() + count_definitions(entries@),
    {
        let token = CancellationToken::new();
        self.active_operation = Some(token);
        let result = self.file_processor.scan_directory(entries, &token);
        self.active_operation = None;
        result
    }

    /// Size and count of every deletable category of the stored result.
    pub fn get_category_summary(&self) -> (r: Option<CategorySummaryResponse>)
        requires
            self.wf(),
        ensures
            r is Some <==> self.spec_processor().spec_scan_result() is Some,
            match r {
                Some(resp) => {
                    &&& resp.background_video.total_count == self.spec_processor().result_records(
                        FileType::BackgroundVideo,
                    ).len()
                    &&& resp.background_video.total_size == sum_sizes(
                        self.spec_processor().result_records(FileType::BackgroundVideo),
                    )
                    &&& resp.background_image.total_count == self.spec_processor().result_records(
                        FileType::BackgroundImage,
                    ).len()
                    &&& resp.background_image.total_size == sum_sizes(
                        self.spec_processor().result_records(FileType::BackgroundImage),
                    )
                    &&& resp.storyboard.total_count == self.spec_processor().result_records(
                        FileType::Storyboard,
                    ).len()
                    &&& resp.storyboard.total_size == sum_sizes(
                        self.spec_processor().result_records(FileType::Storyboard),
                    )
                    &&& resp.skin_element.total_count == self.spec_processor().result_records(
                        FileType::SkinElement,
                    ).len()
                    &&& resp.skin_element.total_size == sum_sizes(
                        self.spec_processor().result_records(FileType::SkinElement),
                    )
                    &&& resp.hitsound.total_count == self.spec_processor().result_records(
                        FileType::Hitsound,
                    ).len()
                    &&& resp.hitsound.total_size == sum_sizes(
                        self.spec_processor().result_records(FileType::Hitsound),
                    )
                },
                None => true,
            },
    {
        self.file_processor.get_category_summary()
    }

    /// The records of one named category of the stored result.
    pub fn get_category_data(&self, category: &str) -> (r: Option<CategoryDataResponse>)
        ensures
            match (self.spec_processor().spec_scan_result(), resolve_category_spec(category@)) {
                (Some(res), Some(t)) => match r {
                    Some(data) => data.files.deep_view() == self.spec_processor().result_records(
                        t,
                    ),
                    None => false,
                },
                _ => r is None,
            },
    {
        self.file_processor.get_category_data(category)
    }

    /// Removes every recognized named category from the stored result as
    /// the active operation and returns the removed records, for the caller
    /// to delete from disk.
    pub fn delete_files(&mut self, categories: &Vec<String>) -> (r: (
        DeleteOutcome,
        Vec<CategoryRemoval>,
    ))
        requires
            old(self).wf(),
        ensures
            final(self).wf(),
            final(self).spec_active_operation() is None,
            r.0 is Completed,
            match old(self).spec_processor().spec_scan_result() {
                None => final(self).spec_processor().spec_scan_result() is None
                    && r.1@.len() == 0,
                Some(res) => {
                    &&& final(self).spec_processor().spec_scan_result() is Some
                    &&& final(self).spec_processor().spec_scan_result()->Some_0.files.recs()
                        == records_after_deletions(categories.deep_view(), res.files.recs())
                    &&& removals_view(r.1@) == deletion_groups(
                        categories.deep_view(),
                        res.files.recs(),
                    )
                },
            },
    {
        let token = CancellationToken::new();
        self.active_operation = Some(token);
        let result = self.file_processor.delete_files(categories, &token);
        self.active_operation = None;
        result
    }
}

} // verus!
