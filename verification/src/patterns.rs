//! The fixed pattern catalog: known video extensions and the file-name
//! substrings that mark skin overrides and hitsounds.

use vstd::prelude::*;
use crate::text::ci_equal;
use crate::text::ci_contains;
use crate::text::str_equal;
use crate::text::str_equal_ignore_case;
use crate::text::contains_ignore_case;
use crate::paths::extension_spec;
use crate::paths::extension_of;
use crate::paths::file_name_spec;
use crate::paths::file_name;

verus! {

/// The known video file extensions.
pub open spec fn video_extension_list() -> Seq<Seq<char>> {
    seq![
        "3gp"@,
        "avi"@,
        "flv"@,
        "m4v"@,
        "mkv"@,
        "mov"@,
        "mp4"@,
        "mpeg"@,
        "mpg"@,
        "webm"@,
        "wmv"@,
    ]
}

/// The file-name substrings that mark a skin override.
pub open spec fn skin_pattern_list() -> Seq<Seq<char>> {
    seq![
        "applause"@,
        "approachcircle"@,
        "button-"@,
        "combobreak"@,
        "comboburst"@,
        "count"@,
        "cursor"@,
        "default-"@,
        "failsound"@,
        "followpoint"@,
        "fruit-"@,
        "go.png"@,
        "go@2x.png"@,
        "gos.png"@,
        "gos@2x.png"@,
        "hit0"@,
        "hit100"@,
        "hit300"@,
        "hit50"@,
        "hitcircle"@,
        "inputoverlay-"@,
        "lighting.png"@,
        "lighting@2x.png"@,
        "mania-"@,
        "menu."@,
        "menu-back"@,
        "particle100"@,
        "particle300"@,
        "particle50"@,
        "pause-"@,
        "pippidon"@,
        "play-"@,
        "ranking-"@,
        "ready"@,
        "reversearrow"@,
        "score-"@,
        "scorebar-"@,
        "sectionfail"@,
        "sectionpass"@,
        "section-"@,
        "selection-"@,
        "sliderb"@,
        "sliderfollowcircle"@,
        "sliderscorepoint"@,
        "spinnerbonus"@,
        "spinner-"@,
        "spinnerspin"@,
        "star.png"@,
        "star@2x.png"@,
        "star2.png"@,
        "star2@2x.png"@,
        "taiko-"@,
        "taikobigcircle"@,
        "taikohitcircle"@,
    ]
}

/// The file-name substrings that mark a hitsound sample.
pub open spec fn hitsound_pattern_list() -> Seq<Seq<char>> {
    seq![
        "drum-"@,
        "normal-"@,
        "soft-"@,
    ]
}

/// The extension of the storyboard-definition files.
pub open spec fn storyboard_extension() -> Seq<char> {
    "osb"@
}

/// The extension of the beatmap-definition files.
pub open spec fn beatmap_extension() -> Seq<char> {
    "osu"@
}

/// The path has an extension equal, up to ASCII case, to a known video
/// extension.
pub open spec fn is_video_spec(path: Seq<char>) -> bool {
    match extension_spec(path) {
        Some(e) => exists|i: int|
            0 <= i < video_extension_list().len()
                && ci_equal(e, #[trigger] video_extension_list()[i]),
        None => false,
    }
}

/// The file name contains, up to ASCII case, a skin-override substring.
pub open spec fn is_skin_element_spec(name: Seq<char>) -> bool {
    exists|i: int|
        0 <= i < skin_pattern_list().len()
            && ci_contains(name, #[trigger] skin_pattern_list()[i])
}

/// The file name contains, up to ASCII case, a hitsound substring.
pub open spec fn is_hitsound_spec(name: Seq<char>) -> bool {
    exists|i: int|
        0 <= i < hitsound_pattern_list().len()
            && ci_contains(name, #[trigger] hitsound_pattern_list()[i])
}

/// The path has exactly the storyboard-definition extension.
pub open spec fn is_storyboard_file_spec(path: Seq<char>) -> bool {
    extension_spec(path) == Some(storyboard_extension())
}

/// The path has exactly the beatmap-definition extension.
pub open spec fn is_beatmap_file_spec(path: Seq<char>) -> bool {
    extension_spec(path) == Some(beatmap_extension())
}

/// A path cannot carry both definition extensions at once.
pub proof fn lemma_definition_kinds_exclusive(path: Seq<char>)
    ensures
        !(is_beatmap_file_spec(path) && is_storyboard_file_spec(path)),
{
    reveal_strlit("osu");
    reveal_strlit("osb");
    assert(beatmap_extension()[2] != storyboard_extension()[2]);
}

fn push_pattern(v: &mut Vec<String>, p: &str)
    ensures
        final(v)@.len() == old(v)@.len() + 1,
        final(v).deep_view() == old(v).deep_view().push(p@),
{
    v.push(p.to_owned());
    proof {
        assert(v.deep_view() =~= old(v).deep_view().push(p@));
    }
}

#[verifier::rlimit(40)]
fn build_video_extensions() -> (v: Vec<String>)
    ensures
        v.deep_view() == video_extension_list(),
{
    let mut v: Vec<String> = Vec::new();
        push_pattern(&mut v, "3gp");
        push_pattern(&mut v, "avi");
        push_pattern(&mut v, "flv");
        push_pattern(&mut v, "m4v");
        push_pattern(&mut v, "mkv");
        push_pattern(&mut v, "mov");
        push_pattern(&mut v, "mp4");
        push_pattern(&mut v, "mpeg");
        push_pattern(&mut v, "mpg");
        push_pattern(&mut v, "webm");
        push_pattern(&mut v, "wmv");
    proof {
        assert(v.deep_view() =~= video_extension_list());
    }
    v
}

#[verifier::rlimit(80)]
fn build_skin_patterns() -> (v: Vec<String>)
    ensures
        v.deep_view() == skin_pattern_list(),
{
    let mut v: Vec<String> = Vec::new();
        push_pattern(&mut v, "applause");
        push_pattern(&mut v, "approachcircle");
        push_pattern(&mut v, "button-");
        push_pattern(&mut v, "combobreak");
        push_pattern(&mut v, "comboburst");
        push_pattern(&mut v, "count");
        push_pattern(&mut v, "cursor");
        push_pattern(&mut v, "default-");
        push_pattern(&mut v, "failsound");
        push_pattern(&mut v, "followpoint");
        push_pattern(&mut v, "fruit-");
        push_pattern(&mut v, "go.png");
        push_pattern(&mut v, "go@2x.png");
        push_pattern(&mut v, "gos.png");
        push_pattern(&mut v, "gos@2x.png");
        push_pattern(&mut v, "hit0");
        push_pattern(&mut v, "hit100");
        push_pattern(&mut v, "hit300");
        push_pattern(&mut v, "hit50");
        push_pattern(&mut v, "hitcircle");
        push_pattern(&mut v, "inputoverlay-");
        push_pattern(&mut v, "lighting.png");
        push_pattern(&mut v, "lighting@2x.png");
        push_pattern(&mut v, "mania-");
        push_pattern(&mut v, "menu.");
        push_pattern(&mut v, "menu-back");
        push_pattern(&mut v, "particle100");
        push_pattern(&mut v, "particle300");
        push_pattern(&mut v, "particle50");
        push_pattern(&mut v, "pause-");
        push_pattern(&mut v, "pippidon");
        push_pattern(&mut v, "play-");
        push_pattern(&mut v, "ranking-");
        push_pattern(&mut v, "ready");
        push_pattern(&mut v, "reversearrow");
        push_pattern(&mut v, "score-");
        push_pattern(&mut v, "scorebar-");
        push_pattern(&mut v, "sectionfail");
        push_pattern(&mut v, "sectionpass");
        push_pattern(&mut v, "section-");
        push_pattern(&mut v, "selection-");
        push_pattern(&mut v, "sliderb");
        push_pattern(&mut v, "sliderfollowcircle");
        push_pattern(&mut v, "sliderscorepoint");
        push_pattern(&mut v, "spinnerbonus");
        push_pattern(&mut v, "spinner-");
        push_pattern(&mut v, "spinnerspin");
        push_pattern(&mut v, "star.png");
        push_pattern(&mut v, "star@2x.png");
        push_pattern(&mut v, "star2.png");
        push_pattern(&mut v, "star2@2x.png");
        push_pattern(&mut v, "taiko-");
        push_pattern(&mut v, "taikobigcircle");
        push_pattern(&mut v, "taikohitcircle");
    proof {
        assert(v.deep_view() =~= skin_pattern_list());
    }
    v
}

fn build_hitsound_patterns() -> (v: Vec<String>)
    ensures
        v.deep_view() == hitsound_pattern_list(),
{
    let mut v: Vec<String> = Vec::new();
        push_pattern(&mut v, "drum-");
        push_pattern(&mut v, "normal-");
        push_pattern(&mut v, "soft-");
    proof {
        assert(v.deep_view() =~= hitsound_pattern_list());
    }
    v
}

/// The catalog held as executable lookup tables.
pub struct FilePatterns {
    pub video_extensions: Vec<String>,
    pub skin_patterns: Vec<String>,
    pub hitsound_patterns: Vec<String>,
}

impl FilePatterns {
    /// The tables hold exactly the fixed catalog.
    pub open spec fn wf(&self) -> bool {
        &&& self.video_extensions.deep_view() == video_extension_list()
        &&& self.skin_patterns.deep_view() == skin_pattern_list()
        &&& self.hitsound_patterns.deep_view() == hitsound_pattern_list()
    }

    pub fn new() -> (r: Self)
        ensures
            r.wf(),
    {
        Self {
            video_extensions: build_video_extensions(),
            skin_patterns: build_skin_patterns(),
            hitsound_patterns: build_hitsound_patterns(),
        }
    }

    /// Whether the path's extension names a known video format.
    pub fn is_video(&self, path: &str) -> (r: bool)
        requires
            self.wf(),
        ensures
            r == is_video_spec(path@),
    {
        match extension_of(path) {
            None => false,
            Some(e) => {
                let n = self.video_extensions.len();
                let mut i: usize = 0;
                while i < n
                    invariant
                        i <= n,
                        n == video_extension_list().len(),
                        self.video_extensions.deep_view() == video_extension_list(),
                        extension_spec(path@) == Some(e@),
                        forall|k: int| 0 <= k < i
                            ==> !ci_equal(e@, #[trigger] video_extension_list()[k]),
                    decreases n - i,
                {
                    if str_equal_ignore_case(e, self.video_extensions[i].as_str()) {
                        return true;
                    }
                    i = i + 1;
                }
                false
            },
        }
    }

    /// Whether the file name contains a skin-override substring.
    pub fn is_skin_element(&self, name: &str) -> (r: bool)
        requires
            self.wf(),
        ensures
            r == is_skin_element_spec(name@),
    {
        let n = self.skin_patterns.len();
        let mut i: usize = 0;
        while i < n
            invariant
                i <= n,
                n == skin_pattern_list().len(),
                self.skin_patterns.deep_view() == skin_pattern_list(),
                forall|k: int| 0 <= k < i
                    ==> !ci_contains(name@, #[trigger] skin_pattern_list()[k]),
            decreases n - i,
        {
            if contains_ignore_case(name, self.skin_patterns[i].as_str()) {
                return true;
            }
            i = i + 1;
        }
        false
    }

    /// Whether the file name contains a hitsound substring.
    pub fn is_hitsound(&self, name: &str) -> (r: bool)
        requires
            self.wf(),
        ensures
            r == is_hitsound_spec(name@),
    {
        let n = self.hitsound_patterns.len();
        let mut i: usize = 0;
        while i < n
            invariant
                i <= n,
                n == hitsound_pattern_list().len(),
                self.hitsound_patterns.deep_view() == hitsound_pattern_list(),
                forall|k: int| 0 <= k < i
                    ==> !ci_contains(name@, #[trigger] hitsound_pattern_list()[k]),
            decreases n - i,
        {
            if contains_ignore_case(name, self.hitsound_patterns[i].as_str()) {
                return true;
            }
            i = i + 1;
        }
        false
    }

    /// Whether the path names a storyboard-definition file.
    pub fn is_storyboard_file(&self, path: &str) -> (r: bool)
        ensures
            r == is_storyboard_file_spec(path@),
    {
        match extension_of(path) {
            None => false,
            Some(e) => str_equal(e, "osb"),
        }
    }

    /// Whether the path names a beatmap-definition file.
    pub fn is_beatmap_file(&self, path: &str) -> (r: bool)
        ensures
            r == is_beatmap_file_spec(path@),
    {
        match extension_of(path) {
            None => false,
            Some(e) => str_equal(e, "osu"),
        }
    }
}

} // verus!
