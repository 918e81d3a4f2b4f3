//! Verified character-level text utilities.
//!
//! Paths and definition-file lines are modelled as sequences of characters
//! (`Seq<char>`). Case folding covers the ASCII letters, which is all the
//! fixed pattern catalog ever needs to match.

use vstd::prelude::*;

verus! {

/// ASCII case folding of a single character; other characters are unchanged.
pub open spec fn lower_char(c: char) -> char {
    if 'A' <= c && c <= 'Z' {
        ((c as int) + 32) as char
    } else {
        c
    }
}

/// ASCII case folding of a whole sequence.
pub open spec fn lower(s: Seq<char>) -> Seq<char> {
    s.map_values(|c: char| lower_char(c))
}

/// `p` occurs as a contiguous subsequence of `s`.
pub open spec fn contains_seq(s: Seq<char>, p: Seq<char>) -> bool {
    exists|i: int| 0 <= i && i + p.len() <= s.len()
        && #[trigger] s.subrange(i, i + p.len() as int) == p
}

/// `p` occurs in `s`, comparing ASCII-case-insensitively.
pub open spec fn ci_contains(s: Seq<char>, p: Seq<char>) -> bool {
    contains_seq(lower(s), lower(p))
}

/// `a` and `b` are equal up to ASCII case.
pub open spec fn ci_equal(a: Seq<char>, b: Seq<char>) -> bool {
    lower(a) == lower(b)
}

/// The characters stripped from line ends: the ASCII whitespace bytes.
pub open spec fn is_space(c: char) -> bool {
    c == ' ' || c == '\t' || c == '\r' || c == '\n'
}

/// `s` without its leading whitespace.
pub open spec fn trim_front(s: Seq<char>) -> Seq<char>
    decreases s.len(),
{
    if s.len() > 0 && is_space(s[0]) {
        trim_front(s.drop_first())
    } else {
        s
    }
}

/// `s` without its trailing whitespace.
pub open spec fn trim_back(s: Seq<char>) -> Seq<char>
    decreases s.len(),
{
    if s.len() > 0 && is_space(s[s.len() - 1]) {
        trim_back(s.drop_last())
    } else {
        s
    }
}

/// `s` without leading and trailing whitespace.
pub open spec fn trimmed(s: Seq<char>) -> Seq<char> {
    trim_back(trim_front(s))
}

/// The first index `i >= from` with `s[i] == c`, or `-1` if there is none.
pub open spec fn find_char_from(s: Seq<char>, c: char, from: int) -> int
    decreases s.len() - from,
{
    if from < 0 || from >= s.len() {
        -1
    } else if s[from] == c {
        from
    } else {
        find_char_from(s, c, from + 1)
    }
}

/// The last index `i < before` with `s[i] == c`, or `-1` if there is none.
pub open spec fn rfind_char_before(s: Seq<char>, c: char, before: int) -> int
    decreases before,
{
    if before <= 0 || before > s.len() {
        -1
    } else if s[before - 1] == c {
        before - 1
    } else {
        rfind_char_before(s, c, before - 1)
    }
}

fn lowercase_char(c: char) -> (r: char)
    ensures
        r == lower_char(c),
{
    match c {
        'A' => 'a',
        'B' => 'b',
        'C' => 'c',
        'D' => 'd',
        'E' => 'e',
        'F' => 'f',
        'G' => 'g',
        'H' => 'h',
        'I' => 'i',
        'J' => 'j',
        'K' => 'k',
        'L' => 'l',
        'M' => 'm',
        'N' => 'n',
        'O' => 'o',
        'P' => 'p',
        'Q' => 'q',
        'R' => 'r',
        'S' => 's',
        'T' => 't',
        'U' => 'u',
        'V' => 'v',
        'W' => 'w',
        'X' => 'x',
        'Y' => 'y',
        'Z' => 'z',
        _ => c,
    }
}

fn is_space_char(c: char) -> (r: bool)
    ensures
        r == is_space(c),
{
    c == ' ' || c == '\t' || c == '\r' || c == '\n'
}

/// Exact equality of two string slices, decided character by character.
pub fn str_equal(a: &str, b: &str) -> (r: bool)
    ensures
        r == (a@ == b@),
{
    let na = a.unicode_len();
    let nb = b.unicode_len();
    if na != nb {
        return false;
    }
    let mut i: usize = 0;
    while i < na
        invariant
            i <= na,
            na == a@.len(),
            na == b@.len(),
            forall|k: int| 0 <= k < i ==> a@[k] == b@[k],
        decreases na - i,
    {
        if a.get_char(i) != b.get_char(i) {
            return false;
        }
        i = i + 1;
    }
    proof {
        assert(a@ =~= b@);
    }
    true
}

/// Case-insensitive equality of two string slices.
pub fn str_equal_ignore_case(a: &str, b: &str) -> (r: bool)
    ensures
        r == ci_equal(a@, b@),
{
    let na = a.unicode_len();
    let nb = b.unicode_len();
    if na != nb {
        assert(lower(a@).len() != lower(b@).len());
        return false;
    }
    let mut i: usize = 0;
    while i < na
        invariant
            i <= na,
            na == a@.len(),
            na == b@.len(),
            forall|k: int| 0 <= k < i ==> lower(a@)[k] == lower(b@)[k],
        decreases na - i,
    {
        if lowercase_char(a.get_char(i)) != lowercase_char(b.get_char(i)) {
            assert(lower(a@)[i as int] != lower(b@)[i as int]);
            return false;
        }
        i = i + 1;
    }
    proof {
        assert(lower(a@) =~= lower(b@));
    }
    true
}

/// Whether `p` is a prefix of `s`, compared exactly.
pub fn starts_with(s: &str, p: &str) -> (r: bool)
    ensures
        r == p@.is_prefix_of(s@),
{
    let ns = s.unicode_len();
    let np = p.unicode_len();
    if np > ns {
        return false;
    }
    let mut i: usize = 0;
    while i < np
        invariant
            i <= np,
            np <= ns,
            ns == s@.len(),
            np == p@.len(),
            forall|k: int| 0 <= k < i ==> s@[k] == p@[k],
        decreases np - i,
    {
        if s.get_char(i) != p.get_char(i) {
            assert(!p@.is_prefix_of(s@)) by {
                assert(s@.subrange(0, p@.len() as int)[i as int] == s@[i as int]);
            }
            return false;
        }
        i = i + 1;
    }
    proof {
        assert(p@ =~= s@.subrange(0, p@.len() as int));
    }
    true
}

/// Whether the lowered pattern occurs in the lowered text.
pub fn contains_ignore_case(s: &str, p: &str) -> (r: bool)
    ensures
        r == ci_contains(s@, p@),
{
    let ns = s.unicode_len();
    let np = p.unicode_len();
    if np > ns {
        return false;
    }
    if np == 0 {
        proof {
            assert(lower(s@).subrange(0, 0 + lower(p@).len() as int) =~= lower(p@));
        }
        return true;
    }
    let mut i: usize = 0;
    while i <= ns - np
        invariant
            1 <= np <= ns,
            ns == s@.len(),
            np == p@.len(),
            i <= ns - np + 1,
            forall|k: int| 0 <= k < i
                ==> #[trigger] lower(s@).subrange(k, k + p@.len() as int) != lower(p@),
        decreases ns - i,
    {
        let mut j: usize = 0;
        let mut matches_here = true;
        while j < np
            invariant
                j <= np,
                i + np <= ns,
                ns == s@.len(),
                np == p@.len(),
                matches_here ==> forall|k: int| 0 <= k < j
                    ==> lower(s@)[i + k] == lower(p@)[k],
                !matches_here ==> lower(s@).subrange(i as int, i + p@.len() as int) != lower(p@),
            decreases np - j,
        {
            if lowercase_char(s.get_char(i + j)) != lowercase_char(p.get_char(j)) {
                proof {
                    assert(lower(s@).subrange(i as int, i + p@.len() as int)[j as int]
                        == lower(s@)[i + j]);
                }
                matches_here = false;
                j = np;
            } else {
                j = j + 1;
            }
        }
        if matches_here {
            proof {
                assert(lower(s@).subrange(i as int, i + p@.len() as int) =~= lower(p@));
            }
            return true;
        }
        i = i + 1;
    }
    proof {
        assert forall|k: int| !(0 <= k && k + lower(p@).len() <= lower(s@).len()
            && #[trigger] lower(s@).subrange(k, k + lower(p@).len() as int) == lower(p@)) by {
            if 0 <= k && k + p@.len() <= s@.len() {
                assert(k < i);
            }
        }
    }
    false
}

/// The first occurrence of `c` in `s` at or after `from`.
pub fn find_char(s: &str, c: char, from: usize) -> (r: Option<usize>)
    ensures
        match r {
            Some(i) => from <= i < s@.len() && find_char_from(s@, c, from as int) == i,
            None => find_char_from(s@, c, from as int) == -1,
        },
{
    let n = s.unicode_len();
    if from >= n {
        return None;
    }
    let mut i: usize = from;
    while i < n
        invariant
            from <= i <= n,
            n == s@.len(),
            find_char_from(s@, c, from as int) == find_char_from(s@, c, i as int),
        decreases n - i,
    {
        if s.get_char(i) == c {
            return Some(i);
        }
        i = i + 1;
    }
    None
}

/// The last occurrence of `c` in `s` strictly before `before`.
pub fn rfind_char(s: &str, c: char, before: usize) -> (r: Option<usize>)
    ensures
        match r {
            Some(i) => i < before && i < s@.len()
                && rfind_char_before(s@, c, before as int) == i,
            None => rfind_char_before(s@, c, before as int) == -1,
        },
{
    let n = s.unicode_len();
    if before > n {
        return None;
    }
    let mut i: usize = before;
    while i > 0
        invariant
            i <= before <= n,
            n == s@.len(),
            rfind_char_before(s@, c, before as int) == rfind_char_before(s@, c, i as int),
        decreases i,
    {
        if s.get_char(i - 1) == c {
            return Some(i - 1);
        }
        i = i - 1;
    }
    None
}

/// `s` with ASCII whitespace stripped from both ends.
pub fn trim(s: &str) -> (r: &str)
    ensures
        r@ == trimmed(s@),
{
    let n = s.unicode_len();
    proof {
        assert(s@.skip(0) =~= s@);
    }
    let mut a: usize = 0;
    while a < n && is_space_char(s.get_char(a))
        invariant
            a <= n,
            n == s@.len(),
            trim_front(s@) == trim_front(s@.skip(a as int)),
        decreases n - a,
    {
        proof {
            assert(s@.skip(a as int).drop_first() =~= s@.skip(a + 1));
        }
        a = a + 1;
    }
    proof {
        if a < n {
            assert(trim_front(s@.skip(a as int)) == s@.skip(a as int));
        } else {
            assert(s@.skip(a as int).len() == 0);
        }
        assert(trim_front(s@) == s@.skip(a as int));
    }
    let ghost t = s@.skip(a as int);
    proof {
        assert(t.take(n - a as int) =~= t);
    }
    let mut b: usize = n;
    while b > a && is_space_char(s.get_char(b - 1))
        invariant
            a <= b <= n,
            n == s@.len(),
            t == s@.skip(a as int),
            trim_back(t) == trim_back(t.take(b - a as int)),
        decreases b,
    {
        proof {
            assert(t.take(b - a as int)[b - a - 1] == s@[b - 1]);
            assert(t.take(b - a as int).drop_last() =~= t.take(b - 1 - a as int));
        }
        b = b - 1;
    }
    proof {
        if b > a {
            assert(t.take(b - a as int)[b - a - 1] == s@[b - 1]);
            assert(trim_back(t.take(b - a as int)) == t.take(b - a as int));
        } else {
            assert(t.take(b - a as int).len() == 0);
        }
        assert(trim_back(t) == t.take(b - a as int));
        assert(t.take(b - a as int) =~= s@.subrange(a as int, b as int));
    }
    s.substring_char(a, b)
}

/// Resolving a referenced name against the parent directory of the file that
/// referenced it: a single separator is placed between the two parts, unless
/// the parent is empty or already ends with one.
pub open spec fn join_path_spec(parent: Seq<char>, name: Seq<char>) -> Seq<char> {
    if parent.len() == 0 {
        name
    } else if parent[parent.len() - 1] == '/' {
        parent + name
    } else {
        parent + seq!['/'] + name
    }
}

/// Joins a parent directory and a relative name with a `/` separator.
pub fn join_path(parent: &str, name: &str) -> (r: String)
    ensures
        r@ == join_path_spec(parent@, name@),
{
    let n = parent.unicode_len();
    if n == 0 {
        name.to_owned()
    } else if parent.get_char(n - 1) == '/' {
        let mut r = parent.to_owned();
        r.append(name);
        proof {
            assert(r@ =~= parent@ + name@);
        }
        r
    } else {
        let mut r = parent.to_owned();
        r.append("/");
        r.append(name);
        proof {
            reveal_strlit("/");
            assert(r@ =~= parent@ + seq!['/'] + name@);
        }
        r
    }
}

} // verus!
