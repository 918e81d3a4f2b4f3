//! The path model: a path is a sequence of characters whose components are
//! separated by `/`. The final component is the file name; its extension is
//! what follows the last dot, provided that dot is not the name's first
//! character.

use vstd::prelude::*;
use crate::text::rfind_char_before;
use crate::text::rfind_char;

verus! {

/// The final component of `path`: everything after the last separator, or the
/// whole path when it has no separator.
pub open spec fn file_name_spec(path: Seq<char>) -> Seq<char> {
    path.subrange(rfind_char_before(path, '/', path.len() as int) + 1, path.len() as int)
}

/// The extension of `path`: what follows the last dot of the file name,
/// unless that dot is the name's first character or there is no dot.
pub open spec fn extension_spec(path: Seq<char>) -> Option<Seq<char>> {
    let name = file_name_spec(path);
    let d = rfind_char_before(name, '.', name.len() as int);
    if d <= 0 {
        None
    } else {
        Some(name.subrange(d + 1, name.len() as int))
    }
}

/// The directory part of `path`: everything before the last separator (the
/// separator itself is kept only when it is the leading character), or empty
/// when the path has no separator.
pub open spec fn parent_spec(path: Seq<char>) -> Seq<char> {
    let s = rfind_char_before(path, '/', path.len() as int);
    if s < 0 {
        Seq::empty()
    } else if s == 0 {
        seq!['/']
    } else {
        path.subrange(0, s)
    }
}

/// The final component of `path`.
pub fn file_name(path: &str) -> (r: &str)
    ensures
        r@ == file_name_spec(path@),
{
    let n = path.unicode_len();
    match rfind_char(path, '/', n) {
        Some(i) => path.substring_char(i + 1, n),
        None => {
            proof {
                assert(path@.subrange(0, n as int) =~= path@);
            }
            path
        },
    }
}

/// The extension of `path`, if it has one.
pub fn extension_of(path: &str) -> (r: Option<&str>)
    ensures
        match r {
            Some(e) => extension_spec(path@) == Some(e@),
            None => extension_spec(path@) is None,
        },
{
    let name = file_name(path);
    let n = name.unicode_len();
    match rfind_char(name, '.', n) {
        Some(d) => {
            if d == 0 {
                None
            } else {
                Some(name.substring_char(d + 1, n))
            }
        },
        None => None,
    }
}

/// The directory part of `path`.
pub fn parent_of(path: &str) -> (r: &str)
    ensures
        r@ == parent_spec(path@),
{
    let n = path.unicode_len();
    match rfind_char(path, '/', n) {
        Some(i) => {
            if i == 0 {
                let r = "/";
                proof {
                    reveal_strlit("/");
                    assert(r@ =~= seq!['/']);
                }
                r
            } else {
                path.substring_char(0, i)
            }
        },
        None => {
            let r = "";
            proof {
                reveal_strlit("");
                assert(r@ =~= Seq::<char>::empty());
            }
            r
        },
    }
}

} // verus!
