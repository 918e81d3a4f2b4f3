use beatmap_cleaner::counters::CommonCounterState;
use beatmap_cleaner::counters::FilterCounterState;
use beatmap_cleaner::models::CancellationToken;
use beatmap_cleaner::models::ScanContext;
use beatmap_cleaner::patterns::FilePatterns;
use beatmap_cleaner::extract::extract_quoted_path;
use beatmap_cleaner::extract::parse_osu_lines;
use beatmap_cleaner::extract::parse_storyboard_lines;
use beatmap_cleaner::paths::extension_of;
use beatmap_cleaner::paths::file_name;
use beatmap_cleaner::paths::parent_of;
use beatmap_cleaner::text::join_path;
use beatmap_cleaner::text::trim;
use beatmap_cleaner::text::str_equal;
use beatmap_cleaner::text::contains_ignore_case;
use beatmap_cleaner::FileType;

#[test]
fn common_counter_drains_to_zero() {
    let mut c = CommonCounterState::new();
    c.increment();
    c.increment();
    c.increment();
    assert_eq!(c.get_and_reset(), 3);
    assert_eq!(c.get_and_reset(), 0);
}

#[test]
fn filter_counter_tracks_each_category() {
    let mut c = FilterCounterState::new();
    c.increment(FileType::Hitsound);
    c.increment(FileType::Hitsound);
    c.increment(FileType::Other);
    assert_eq!(c.get_counter(FileType::Hitsound), 2);
    assert_eq!(c.get_counter(FileType::SkinElement), 0);
    assert_eq!(c.reset_counter(FileType::Hitsound), 2);
    assert_eq!(c.get_counter(FileType::Hitsound), 0);
    let snapshot = c.get_and_reset();
    assert_eq!(snapshot.other, 1);
    assert_eq!(snapshot.hitsound, 0);
    let drained = c.get_and_reset();
    assert_eq!(drained.other, 0);
}

#[test]
fn cancellation_token_stays_set() {
    let mut token = CancellationToken::new();
    assert!(!token.is_cancelled());
    token.cancel();
    assert!(token.is_cancelled());
    token.cancel();
    assert!(token.is_cancelled());
}

#[test]
fn quoted_path_extraction() {
    assert_eq!(extract_quoted_path("0,0,\"bg.jpg\",0,0"), Some("bg.jpg"));
    assert_eq!(extract_quoted_path("no quotes here"), None);
    assert_eq!(extract_quoted_path("one \" quote"), None);
    assert_eq!(extract_quoted_path("\"\""), Some(""));
}

#[test]
fn skin_pattern_matching_is_case_insensitive() {
    let patterns = FilePatterns::new();
    assert!(patterns.is_skin_element("DEFAULT-0.PNG"));
    assert!(patterns.is_skin_element("default-0.png"));
    assert!(!patterns.is_skin_element("photo.png"));
}

#[test]
fn hitsound_pattern_matching() {
    let patterns = FilePatterns::new();
    assert!(patterns.is_hitsound("soft-hitnormal.wav"));
    assert!(patterns.is_hitsound("DRUM-HITCLAP.WAV"));
    assert!(!patterns.is_hitsound("song.mp3"));
}

#[test]
fn video_extension_matching() {
    let patterns = FilePatterns::new();
    assert!(patterns.is_video("dir/clip.mp4"));
    assert!(patterns.is_video("dir/CLIP.MP4"));
    assert!(!patterns.is_video("dir/clip.png"));
    assert!(!patterns.is_video("dir/mp4"));
}

#[test]
fn definition_extensions_are_exact() {
    let patterns = FilePatterns::new();
    assert!(patterns.is_storyboard_file("dir/x.osb"));
    assert!(!patterns.is_storyboard_file("dir/x.OSB"));
    assert!(patterns.is_beatmap_file("dir/x.osu"));
    assert!(!patterns.is_beatmap_file("dir/x.osb"));
}

#[test]
fn path_components() {
    assert_eq!(file_name("a/b/c.png"), "c.png");
    assert_eq!(file_name("c.png"), "c.png");
    assert_eq!(parent_of("a/b/c.png"), "a/b");
    assert_eq!(parent_of("c.png"), "");
    assert_eq!(parent_of("/c.png"), "/");
    assert_eq!(extension_of("a/b.c/file"), None);
    assert_eq!(extension_of("a/.hidden"), None);
    assert_eq!(extension_of("a/song.Mp3"), Some("Mp3"));
}

#[test]
fn join_path_inserts_one_separator() {
    assert_eq!(join_path("a/b", "c.png").as_str(), "a/b/c.png");
    assert_eq!(join_path("", "c.png").as_str(), "c.png");
    assert_eq!(join_path("/", "c.png").as_str(), "/c.png");
}

#[test]
fn text_utilities() {
    assert_eq!(trim("  [Events] \r\n"), "[Events]");
    assert_eq!(trim("x"), "x");
    assert_eq!(trim("   "), "");
    assert!(str_equal("abc", "abc"));
    assert!(!str_equal("abc", "abd"));
    assert!(contains_ignore_case("TaikoBigCircle.png", "taikobigcircle"));
    assert!(!contains_ignore_case("short", "longer pattern"));
}

#[test]
fn scan_context_membership() {
    let mut ctx = ScanContext::new();
    assert!(!ctx.contains_background("maps/bg.png"));
    ctx.insert_background("maps/bg.png".to_string());
    assert!(ctx.contains_background("maps/bg.png"));
    assert!(!ctx.contains_background("maps/other.png"));
    ctx.insert_storyboard_element("maps/star.png".to_string());
    assert!(ctx.contains_storyboard_element("maps/star.png"));
    assert!(!ctx.contains_background("maps/star.png"));
}

#[test]
fn scan_context_merge_unions_both_sets() {
    let mut a = ScanContext::new();
    a.insert_background("p1".to_string());
    let mut b = ScanContext::new();
    b.insert_background("p2".to_string());
    b.insert_storyboard_element("s1".to_string());
    a.merge(b);
    assert!(a.contains_background("p1"));
    assert!(a.contains_background("p2"));
    assert!(a.contains_storyboard_element("s1"));
}

#[test]
fn beatmap_parser_follows_the_events_section() {
    let lines = vec![
        "osu file format v14".to_string(),
        "0,0,\"ignored-before-events.png\",0,0".to_string(),
        "[Events]".to_string(),
        "//Background and Video events".to_string(),
        "0,0,\"bg.png\",0,0".to_string(),
        "Video,0,\"intro.mp4\"".to_string(),
        "0,1,\"not-a-marker.png\"".to_string(),
        "[TimingPoints]".to_string(),
        "0,0,\"ignored-after-events.png\",0,0".to_string(),
    ];
    let mut ctx = ScanContext::new();
    parse_osu_lines(&lines, "maps/set1", &mut ctx);
    assert!(ctx.contains_background("maps/set1/bg.png"));
    assert!(ctx.contains_background("maps/set1/intro.mp4"));
    assert!(!ctx.contains_background("maps/set1/ignored-before-events.png"));
    assert!(!ctx.contains_background("maps/set1/ignored-after-events.png"));
    assert!(!ctx.contains_background("maps/set1/not-a-marker.png"));
}

#[test]
fn storyboard_parser_reads_sprite_lines() {
    let lines = vec![
        "[Events]".to_string(),
        "Sprite,Foreground,Centre,\"sb/star.png\",320,240".to_string(),
        "Animation,Foreground,Centre,\"sb/anim.png\",320,240".to_string(),
        "Sprite,no quotes on this line".to_string(),
    ];
    let mut ctx = ScanContext::new();
    parse_storyboard_lines(&lines, "maps/set1", &mut ctx);
    assert!(ctx.contains_storyboard_element("maps/set1/sb/star.png"));
    assert!(!ctx.contains_storyboard_element("maps/set1/sb/anim.png"));
}

#[test]
fn events_header_found_with_surrounding_whitespace() {
    let lines = vec![
        "  [Events]  ".to_string(),
        "0,0,\"bg.png\",0,0".to_string(),
    ];
    let mut ctx = ScanContext::new();
    parse_osu_lines(&lines, "d", &mut ctx);
    assert!(ctx.contains_background("d/bg.png"));
}
