//! The names of the telemetry events the caller's sink receives: phase
//! status transitions, periodic count snapshots, and per-category deletion
//! markers.

use vstd::prelude::*;

verus! {

pub const SCANNER_STATUS: &'static str = "scanner_status";

pub const SCANNER_SCAN_COUNTS: &'static str = "scanner_scan_counts";

pub const SCANNER_PARSE_COUNTS: &'static str = "scanner_parse_counts";

pub const SCANNER_FILTER_COUNTS: &'static str = "scanner_filter_counts";

pub const DELETION_CATEGORY_START: &'static str = "deletion_category_start";

pub const DELETION_CATEGORY_COMPLETE: &'static str = "deletion_category_complete";

pub const STATUS_SCAN_START: &'static str = "scan_start";

pub const STATUS_PARSE_START: &'static str = "parse_start";

pub const STATUS_FILTER_START: &'static str = "filter_start";

pub const STATUS_SCAN_CANCELLED: &'static str = "scan_cancelled";

pub const STATUS_PARSE_CANCELLED: &'static str = "parse_cancelled";

pub const STATUS_FILTER_CANCELLED: &'static str = "filter_cancelled";

pub const STATUS_DELETION_CANCELLED: &'static str = "deletion_cancelled";

} // verus!
