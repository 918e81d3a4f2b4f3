use beatmap_cleaner::models::CancellationToken;
use beatmap_cleaner::models::ScanContext;
use beatmap_cleaner::models::ScanEntry;
use beatmap_cleaner::models::ScanOutcome;
use beatmap_cleaner::models::DeleteOutcome;
use beatmap_cleaner::patterns::FilePatterns;
use beatmap_cleaner::processor::FileProcessor;
use beatmap_cleaner::processor::resolve_category;
use beatmap_cleaner::service::FileProcessorService;
use beatmap_cleaner::FileType;

fn entry(path: &str, size: u64) -> ScanEntry {
    ScanEntry { path: path.to_string(), size, lines: None }
}

fn entry_with_lines(path: &str, size: u64, lines: &[&str]) -> ScanEntry {
    ScanEntry {
        path: path.to_string(),
        size,
        lines: Some(lines.iter().map(|l| l.to_string()).collect()),
    }
}

fn sample_entries() -> Vec<ScanEntry> {
    vec![
        entry("dir/video.mp4", 10),
        entry("dir/bg.png", 5),
        entry_with_lines("dir/map.osu", 3, &["[Events]", "0,0,\"bg.png\",0,0"]),
        entry_with_lines(
            "dir/hit.osb",
            4,
            &["Sprite,Foreground,Centre,\"star.png\",320,240"],
        ),
        entry("dir/star.png", 6),
        entry("dir/default-1.png", 2),
        entry("dir/soft-hitnormal.wav", 1),
        entry("dir/readme.txt", 100),
    ]
}

#[test]
fn end_to_end_scan_classifies_every_file() {
    let mut service = FileProcessorService::new();
    assert!(service.get_category_summary().is_none());
    let outcome = service.scan_directory(&sample_entries());
    assert!(matches!(outcome, ScanOutcome::Completed));

    let expect_one = |service: &FileProcessorService, name: &str, path: &str, size: u64| {
        let data = service.get_category_data(name).unwrap();
        assert_eq!(data.files.len(), 1, "category {}", name);
        assert_eq!(data.files[0].path.as_str(), path);
        assert_eq!(data.files[0].size, size);
    };
    expect_one(&service, "background_video", "dir/video.mp4", 10);
    expect_one(&service, "background_image", "dir/bg.png", 5);
    expect_one(&service, "skin_element", "dir/default-1.png", 2);
    expect_one(&service, "hitsound", "dir/soft-hitnormal.wav", 1);

    // the storyboard category holds the definition file and the referenced
    // sprite; readme.txt and map.osu are dropped as unclassified
    let sb = service.get_category_summary().unwrap();
    assert_eq!(sb.storyboard.total_count, 2);
    assert_eq!(sb.storyboard.total_size, 10);
    let data = service.get_category_data("storyboard").unwrap();
    let paths: Vec<&str> = data.files.iter().map(|f| f.path.as_str()).collect();
    assert!(paths.contains(&"dir/hit.osb"));
    assert!(paths.contains(&"dir/star.png"));
}

#[test]
fn summary_reports_sizes_and_counts() {
    let mut service = FileProcessorService::new();
    service.scan_directory(&sample_entries());
    let summary = service.get_category_summary().unwrap();
    assert_eq!(summary.background_video.total_count, 1);
    assert_eq!(summary.background_video.total_size, 10);
    assert_eq!(summary.background_image.total_count, 1);
    assert_eq!(summary.background_image.total_size, 5);
    assert_eq!(summary.skin_element.total_count, 1);
    assert_eq!(summary.skin_element.total_size, 2);
    assert_eq!(summary.hitsound.total_count, 1);
    assert_eq!(summary.hitsound.total_size, 1);
}

#[test]
fn total_size_excludes_unclassified_files() {
    let mut processor = FileProcessor::new();
    let token = CancellationToken::new();
    let entries = sample_entries();
    let outcome = processor.scan_directory(&entries, &token);
    assert!(matches!(outcome, ScanOutcome::Completed));
    // 10 + 5 + 4 + 6 + 2 + 1; map.osu and readme.txt are not counted
    let result = processor.get_scan_result().as_ref().unwrap();
    assert_eq!(result.total_size, 28);
}

#[test]
fn empty_enumeration_yields_an_empty_result() {
    let mut service = FileProcessorService::new();
    let outcome = service.scan_directory(&Vec::new());
    assert!(matches!(outcome, ScanOutcome::Completed));
    let summary = service.get_category_summary().unwrap();
    assert_eq!(summary.background_video.total_count, 0);
    assert_eq!(summary.hitsound.total_size, 0);
}

#[test]
fn unknown_category_names_are_ignored() {
    let mut service = FileProcessorService::new();
    service.scan_directory(&sample_entries());
    assert!(service.get_category_data("unknown_category").is_none());
    assert!(resolve_category("hitsound") == Some(FileType::Hitsound));
    assert!(resolve_category("Hitsound").is_none());
    let (outcome, groups) = service.delete_files(&vec!["unknown_category".to_string()]);
    assert!(matches!(outcome, DeleteOutcome::Completed));
    assert!(groups.is_empty());
    // nothing was removed
    let summary = service.get_category_summary().unwrap();
    assert_eq!(summary.hitsound.total_count, 1);
}

#[test]
fn cancelled_scan_keeps_the_prior_result() {
    let mut processor = FileProcessor::new();
    let fresh = CancellationToken::new();
    processor.scan_directory(&sample_entries(), &fresh);
    assert_eq!(processor.get_scan_result().as_ref().unwrap().total_size, 28);

    let mut cancelled = CancellationToken::new();
    cancelled.cancel();
    let outcome = processor.scan_directory(&Vec::new(), &cancelled);
    assert!(matches!(outcome, ScanOutcome::Cancelled));
    let result = processor.get_scan_result().as_ref().unwrap();
    assert_eq!(result.total_size, 28);
    assert_eq!(result.files.background_video.len(), 1);
}

#[test]
fn cancelled_deletion_removes_nothing() {
    let mut processor = FileProcessor::new();
    let token = CancellationToken::new();
    processor.scan_directory(&sample_entries(), &token);
    let mut cancelled = CancellationToken::new();
    cancelled.cancel();
    let (outcome, groups) = processor.delete_files(
        &vec!["hitsound".to_string()],
        &cancelled,
    );
    assert!(matches!(outcome, DeleteOutcome::Cancelled));
    assert!(groups.is_empty());
    assert_eq!(processor.get_scan_result().as_ref().unwrap().total_size, 28);
}

#[test]
fn deleting_a_category_removes_exactly_its_records() {
    let mut service = FileProcessorService::new();
    service.scan_directory(&sample_entries());
    let before = service.get_category_data("hitsound").unwrap();
    assert_eq!(before.files.len(), 1);

    let (outcome, groups) = service.delete_files(&vec!["hitsound".to_string()]);
    assert!(matches!(outcome, DeleteOutcome::Completed));
    assert_eq!(groups.len(), 1);
    assert!(matches!(groups[0].category, FileType::Hitsound));
    assert_eq!(groups[0].files.len(), 1);
    assert_eq!(groups[0].files[0].path.as_str(), "dir/soft-hitnormal.wav");

    let after = service.get_category_data("hitsound").unwrap();
    assert!(after.files.is_empty());
    let summary = service.get_category_summary().unwrap();
    assert_eq!(summary.hitsound.total_count, 0);
    assert_eq!(summary.hitsound.total_size, 0);
    // the other categories are untouched
    assert_eq!(summary.background_video.total_count, 1);
    assert_eq!(summary.storyboard.total_count, 2);
    assert_eq!(summary.skin_element.total_count, 1);
    assert_eq!(summary.background_image.total_count, 1);
    // and the total shrinks by exactly the removed size
    let result = service.get_category_data("background_video").unwrap();
    assert_eq!(result.files[0].size, 10);
}

#[test]
fn deleting_twice_yields_an_empty_second_group() {
    let mut service = FileProcessorService::new();
    service.scan_directory(&sample_entries());
    let names = vec!["hitsound".to_string(), "hitsound".to_string()];
    let (outcome, groups) = service.delete_files(&names);
    assert!(matches!(outcome, DeleteOutcome::Completed));
    assert_eq!(groups.len(), 2);
    assert_eq!(groups[0].files.len(), 1);
    assert!(groups[1].files.is_empty());
}

#[test]
fn deletion_with_no_scan_is_a_no_op() {
    let mut service = FileProcessorService::new();
    let (outcome, groups) = service.delete_files(&vec!["hitsound".to_string()]);
    assert!(matches!(outcome, DeleteOutcome::Completed));
    assert!(groups.is_empty());
}

#[test]
fn video_priority_beats_background_membership() {
    let mut processor = FileProcessor::new();
    let patterns = FilePatterns::new();
    let mut ctx = ScanContext::new();
    ctx.insert_background("dir/clip.mp4".to_string());
    let t = processor.categorize_file(&patterns, "dir/clip.mp4", &ctx);
    assert!(matches!(t, FileType::BackgroundVideo));
}

#[test]
fn storyboard_extension_without_references_is_storyboard() {
    let mut processor = FileProcessor::new();
    let patterns = FilePatterns::new();
    let ctx = ScanContext::new();
    let t = processor.categorize_file(&patterns, "dir/untouched.osb", &ctx);
    assert!(matches!(t, FileType::Storyboard));
}

#[test]
fn classification_priority_order() {
    let mut processor = FileProcessor::new();
    let patterns = FilePatterns::new();
    let mut ctx = ScanContext::new();
    ctx.insert_background("d/bg.png".to_string());
    ctx.insert_storyboard_element("d/sprite.png".to_string());
    assert!(matches!(
        processor.categorize_file(&patterns, "d/bg.png", &ctx),
        FileType::BackgroundImage
    ));
    assert!(matches!(
        processor.categorize_file(&patterns, "d/sprite.png", &ctx),
        FileType::Storyboard
    ));
    assert!(matches!(
        processor.categorize_file(&patterns, "d/cursor.png", &ctx),
        FileType::SkinElement
    ));
    assert!(matches!(
        processor.categorize_file(&patterns, "d/normal-hitclap.wav", &ctx),
        FileType::Hitsound
    ));
    assert!(matches!(
        processor.categorize_file(&patterns, "d/lyrics.txt", &ctx),
        FileType::Other
    ));
}

#[test]
fn scan_order_does_not_change_the_outcome() {
    let mut s1 = FileProcessorService::new();
    s1.scan_directory(&sample_entries());
    let mut reversed = sample_entries();
    reversed.reverse();
    let mut s2 = FileProcessorService::new();
    s2.scan_directory(&reversed);
    let a = s1.get_category_summary().unwrap();
    let b = s2.get_category_summary().unwrap();
    assert_eq!(a, b);
}

#[test]
fn rate_limited_emission() {
    let mut p = FileProcessor::new();
    p.record_scanned();
    p.record_scanned();
    // too early after the initial timestamp: nothing is emitted or drained
    assert_eq!(p.try_emit_scan_counts(10, false), None);
    // once the interval has elapsed, the counter is drained
    assert_eq!(p.try_emit_scan_counts(50_000, false), Some(2));
    // the same window does not admit a second emission
    p.record_scanned();
    assert_eq!(p.try_emit_scan_counts(50_001, false), None);
    // a forced flush drains regardless of the clock
    assert_eq!(p.try_emit_scan_counts(50_001, true), Some(1));
    // a drained counter at zero is never emitted
    assert_eq!(p.try_emit_scan_counts(50_001, true), None);
}

#[test]
fn filter_counts_snapshot_is_emitted_once() {
    let mut p = FileProcessor::new();
    let patterns = FilePatterns::new();
    let ctx = ScanContext::new();
    p.categorize_file(&patterns, "d/soft-tick.wav", &ctx);
    let counts = p.try_emit_filter_counts(0, true).unwrap();
    assert_eq!(counts.hitsound, 1);
    assert_eq!(counts.background_video, 0);
    assert!(p.try_emit_filter_counts(0, true).is_none());
}

#[test]
fn parse_counts_follow_definition_files() {
    let mut p = FileProcessor::new();
    let token = CancellationToken::new();
    p.scan_directory(&sample_entries(), &token);
    // two definition files: map.osu and hit.osb
    assert_eq!(p.try_emit_parse_counts(0, true), Some(2));
    // eight enumerated files
    assert_eq!(p.try_emit_scan_counts(0, true), Some(8));
}

#[test]
fn a_new_scan_replaces_the_stored_result_wholesale() {
    let mut service = FileProcessorService::new();
    service.scan_directory(&sample_entries());
    let smaller = vec![entry("other/loop.avi", 7)];
    service.scan_directory(&smaller);
    let summary = service.get_category_summary().unwrap();
    assert_eq!(summary.background_video.total_count, 1);
    assert_eq!(summary.background_video.total_size, 7);
    assert_eq!(summary.hitsound.total_count, 0);
    assert_eq!(summary.storyboard.total_count, 0);
    let data = service.get_category_data("background_video").unwrap();
    assert_eq!(data.files[0].path.as_str(), "other/loop.avi");
}

#[test]
fn large_sizes_are_summed_exactly() {
    let mut service = FileProcessorService::new();
    let entries = vec![
        entry("a/clip.mp4", u64::MAX / 2),
        entry("b/normal-hit.wav", u64::MAX / 2),
    ];
    service.scan_directory(&entries);
    let summary = service.get_category_summary().unwrap();
    assert_eq!(summary.background_video.total_size, u64::MAX / 2);
    assert_eq!(summary.hitsound.total_size, u64::MAX / 2);
}

#[test]
fn service_cancel_without_active_operation_is_a_no_op() {
    let mut service = FileProcessorService::new();
    service.cancel_operation();
    service.scan_directory(&sample_entries());
    assert!(service.get_category_summary().is_some());
}
