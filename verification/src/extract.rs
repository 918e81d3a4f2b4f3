//! Reference extraction from definition files.
//!
//! A beatmap-definition file is parsed with a two-state machine: the
//! `[Events]` header enters the events section, any other `[`-led line leaves
//! it, and inside it the background-image and video marker lines are scanned
//! for their first double-quoted path. A storyboard-definition file is
//! scanned line by line for `Sprite,` lines. Every discovered path is
//! resolved against the definition file's parent directory.

use vstd::prelude::*;
use crate::text::find_char_from;
use crate::text::find_char;
use crate::text::trimmed;
use crate::text::trim;
use crate::text::str_equal;
use crate::text::starts_with;
use crate::text::join_path_spec;
use crate::text::join_path;
use crate::models::ScanContext;

verus! {

/// The first double-quoted substring of a line: the text strictly between
/// the first quote and the next one. Fewer than two quotes yield nothing.
pub open spec fn quoted_path_spec(line: Seq<char>) -> Option<Seq<char>> {
    let a = find_char_from(line, '"', 0);
    if a < 0 {
        None
    } else {
        let b = find_char_from(line, '"', a + 1);
        if b < 0 {
            None
        } else {
            Some(line.subrange(a + 1, b))
        }
    }
}

/// Extracts the first double-quoted substring of a line, if any.
pub fn extract_quoted_path(line: &str) -> (r: Option<&str>)
    ensures
        match r {
            Some(q) => quoted_path_spec(line@) == Some(q@),
            None => quoted_path_spec(line@) is None,
        },
{
    let n = line.unicode_len();
    match find_char(line, '"', 0) {
        None => None,
        Some(a) => {
            assert(a < n);
            match find_char(line, '"', a + 1) {
                None => None,
                Some(b) => Some(line.substring_char(a + 1, b)),
            }
        },
    }
}

/// The `[Events]` header (surrounding whitespace ignored).
pub open spec fn enters_events(line: Seq<char>) -> bool {
    trimmed(line) == "[Events]"@
}

/// A section header line, which leaves the events section.
pub open spec fn exits_events(line: Seq<char>) -> bool {
    line.len() > 0 && line[0] == '['
}

/// A background-image or video marker line of the events section.
pub open spec fn is_asset_line(line: Seq<char>) -> bool {
    "0,0,\""@.is_prefix_of(line) || "Video,"@.is_prefix_of(line)
}

/// A sprite marker line of a storyboard-definition file.
pub open spec fn is_sprite_line(line: Seq<char>) -> bool {
    "Sprite,"@.is_prefix_of(line)
}

/// The background paths recorded by the beatmap-definition state machine
/// from `lines[i..]`, starting in state `in_events`.
pub open spec fn beatmap_refs_from(
    lines: Seq<Seq<char>>,
    parent: Seq<char>,
    i: int,
    in_events: bool,
) -> Set<Seq<char>>
    decreases lines.len() - i,
{
    if i < 0 || i >= lines.len() {
        Set::empty()
    } else {
        let line = lines[i];
        if enters_events(line) {
            beatmap_refs_from(lines, parent, i + 1, true)
        } else if !in_events {
            beatmap_refs_from(lines, parent, i + 1, false)
        } else if exits_events(line) {
            beatmap_refs_from(lines, parent, i + 1, false)
        } else if is_asset_line(line) {
            match quoted_path_spec(line) {
                Some(q) => beatmap_refs_from(lines, parent, i + 1, true).insert(
                    join_path_spec(parent, q),
                ),
                None => beatmap_refs_from(lines, parent, i + 1, true),
            }
        } else {
            beatmap_refs_from(lines, parent, i + 1, true)
        }
    }
}

/// All background paths a beatmap-definition file references.
pub open spec fn beatmap_refs(lines: Seq<Seq<char>>, parent: Seq<char>) -> Set<Seq<char>> {
    beatmap_refs_from(lines, parent, 0, false)
}

/// The sprite paths recorded from `lines[i..]` of a storyboard-definition
/// file.
pub open spec fn storyboard_refs_from(
    lines: Seq<Seq<char>>,
    parent: Seq<char>,
    i: int,
) -> Set<Seq<char>>
    decreases lines.len() - i,
{
    if i < 0 || i >= lines.len() {
        Set::empty()
    } else {
        let line = lines[i];
        let rest = storyboard_refs_from(lines, parent, i + 1);
        if is_sprite_line(line) {
            match quoted_path_spec(line) {
                Some(q) => rest.insert(join_path_spec(parent, q)),
                None => rest,
            }
        } else {
            rest
        }
    }
}

/// All sprite paths a storyboard-definition file references.
pub open spec fn storyboard_refs(lines: Seq<Seq<char>>, parent: Seq<char>) -> Set<Seq<char>> {
    storyboard_refs_from(lines, parent, 0)
}

/// Parses the lines of a beatmap-definition file, inserting every referenced
/// background path into the context.
pub fn parse_osu_lines(lines: &Vec<String>, parent: &str, context: &mut ScanContext)
    ensures
        final(context).bg() == old(context).bg().union(beatmap_refs(lines.deep_view(), parent@)),
        final(context).sb() == old(context).sb(),
{
    let ghost all = beatmap_refs(lines.deep_view(), parent@);
    let n = lines.len();
    let mut in_events = false;
    let mut i: usize = 0;
    while i < n
        invariant
            i <= n,
            n == lines@.len(),
            lines.deep_view().len() == n,
            context.sb() == old(context).sb(),
            old(context).bg().union(all) =~= context.bg().union(
                beatmap_refs_from(lines.deep_view(), parent@, i as int, in_events),
            ),
        decreases n - i,
    {
        proof {
            assert(lines.deep_view()[i as int] == lines@[i as int]@);
        }
        let line = lines[i].as_str();
        let header = trim(line);
        if str_equal(header, "[Events]") {
            in_events = true;
        } else if !in_events {
            // outside the events section: nothing to do
        } else if line.unicode_len() > 0 && line.get_char(0) == '[' {
            in_events = false;
        } else if starts_with(line, "0,0,\"") || starts_with(line, "Video,") {
            match extract_quoted_path(line) {
                Some(q) => {
                    let resolved = join_path(parent, q);
                    proof {
                        let s = beatmap_refs_from(
                            lines.deep_view(),
                            parent@,
                            i + 1,
                            true,
                        );
                        assert(context.bg().union(s.insert(resolved@)) =~= context.bg().insert(
                            resolved@,
                        ).union(s));
                    }
                    context.insert_background(resolved);
                },
                None => {},
            }
        } else {
            // an ordinary events line without a marker: nothing recorded
        }
        i = i + 1;
    }
    proof {
        assert(beatmap_refs_from(lines.deep_view(), parent@, n as int, in_events)
            =~= Set::<Seq<char>>::empty());
        assert(context.bg().union(Set::empty()) =~= context.bg());
        assert(context.bg() =~= old(context).bg().union(all));
    }
}

/// Parses the lines of a storyboard-definition file, inserting every
/// referenced sprite path into the context.
pub fn parse_storyboard_lines(lines: &Vec<String>, parent: &str, context: &mut ScanContext)
    ensures
        final(context).sb() == old(context).sb().union(
            storyboard_refs(lines.deep_view(), parent@),
        ),
        final(context).bg() == old(context).bg(),
{
    let ghost all = storyboard_refs(lines.deep_view(), parent@);
    let n = lines.len();
    let mut i: usize = 0;
    while i < n
        invariant
            i <= n,
            n == lines@.len(),
            lines.deep_view().len() == n,
            context.bg() == old(context).bg(),
            old(context).sb().union(all) =~= context.sb().union(
                storyboard_refs_from(lines.deep_view(), parent@, i as int),
            ),
        decreases n - i,
    {
        proof {
            assert(lines.deep_view()[i as int] == lines@[i as int]@);
        }
        let line = lines[i].as_str();
        if starts_with(line, "Sprite,") {
            match extract_quoted_path(line) {
                Some(q) => {
                    let resolved = join_path(parent, q);
                    proof {
                        let s = storyboard_refs_from(lines.deep_view(), parent@, i + 1);
                        assert(context.sb().union(s.insert(resolved@)) =~= context.sb().insert(
                            resolved@,
                        ).union(s));
                    }
                    context.insert_storyboard_element(resolved);
                },
                None => {},
            }
        }
        i = i + 1;
    }
    proof {
        assert(storyboard_refs_from(lines.deep_view(), parent@, n as int)
            =~= Set::<Seq<char>>::empty());
        assert(context.sb().union(Set::empty()) =~= context.sb());
        assert(context.sb() =~= old(context).sb().union(all));
    }
}

} // verus!
