//! Scanning for inclusion directives.
//!
//! A directive is a line that contains the marker `#` followed by the word
//! of the inclusion keyword, then a path bracketed by the first `<` after the
//! marker and the last `>` of the line. The scan works line by line and
//! reports the first line that carries a well-formed directive, together
//! with the character range of that line's content (a trailing carriage
//! return excluded), which the expansion later replaces.

use vstd::prelude::*;

verus! {

use crate::text::copy_range;

/// The eight characters that open a directive.
pub open spec fn marker() -> Seq<char> {
    seq!['#', 'i', 'n', 'c', 'l', 'u', 'd', 'e']
}

/// The first position of `c` in `s` within `[i, end)`.
pub open spec fn find_char_in(s: Seq<char>, c: char, i: int, end: int) -> Option<int>
    decreases end - i,
{
    if i < 0 || i >= end || end > s.len() {
        None
    } else if s[i] == c {
        Some(i)
    } else {
        find_char_in(s, c, i + 1, end)
    }
}

/// The last position of `c` in `s` within `[i, end)`.
pub open spec fn find_char_last(s: Seq<char>, c: char, i: int, end: int) -> Option<int>
    decreases end - i,
{
    if i < 0 || i >= end || end > s.len() {
        None
    } else if s[end - 1] == c {
        Some(end - 1)
    } else {
        find_char_last(s, c, i, end - 1)
    }
}

/// The first position in `[i, end)` where the marker begins.
pub open spec fn find_marker(s: Seq<char>, i: int, end: int) -> Option<int>
    decreases end - i,
{
    if i < 0 || end > s.len() || i + marker().len() > end {
        None
    } else if s.subrange(i, i + marker().len() as int) == marker() {
        Some(i)
    } else {
        find_marker(s, i + 1, end)
    }
}

/// The path carried by the line `[a, c)` of `s`, if the line holds a
/// well-formed directive: the text between the first `<` after the first
/// marker and the last `>` of the line.
pub open spec fn match_line(s: Seq<char>, a: int, c: int) -> Option<Seq<char>> {
    match find_marker(s, a, c) {
        None => None,
        Some(j) => match find_char_in(s, '<', j + marker().len() as int, c) {
            None => None,
            Some(k) => match find_char_last(s, '>', k + 1, c) {
                None => None,
                Some(m) => Some(s.subrange(k + 1, m)),
            },
        },
    }
}

/// Where the line beginning at `i` stops: the next newline, or the end.
pub open spec fn line_break(s: Seq<char>, i: int) -> int {
    match find_char_in(s, '\n', i, s.len() as int) {
        Some(j) => j,
        None => s.len() as int,
    }
}

/// Where the line's content stops: a trailing carriage return is excluded.
pub open spec fn content_end(s: Seq<char>, i: int) -> int {
    let e = line_break(s, i);
    if e > i && s[e - 1] == '\r' {
        e - 1
    } else {
        e
    }
}

pub proof fn lemma_find_char_in_range(s: Seq<char>, c: char, i: int, end: int)
    ensures
        match find_char_in(s, c, i, end) {
            Some(j) => i <= j < end && end <= s.len() && s[j] == c,
            None => true,
        },
    decreases end - i,
{
    if !(i < 0 || i >= end || end > s.len()) && s[i] != c {
        lemma_find_char_in_range(s, c, i + 1, end);
    }
}

/// The first directive of `s` at or after position `i`: the start and the
/// content end of its line, and the path it names.
pub open spec fn next_directive_from(s: Seq<char>, i: int) -> Option<(int, int, Seq<char>)>
    decreases s.len() - i,
        when 0 <= i <= s.len() via next_directive_decreases
{
    let e = line_break(s, i);
    let c = content_end(s, i);
    match match_line(s, i, c) {
        Some(p) => Some((i, c, p)),
        None => if e >= s.len() {
            None
        } else {
            next_directive_from(s, e + 1)
        },
    }
}

#[via_fn]
proof fn next_directive_decreases(s: Seq<char>, i: int) {
    lemma_find_char_in_range(s, '\n', i, s.len() as int);
}

pub proof fn lemma_line_break_range(s: Seq<char>, i: int)
    requires
        0 <= i <= s.len(),
    ensures
        i <= line_break(s, i) <= s.len(),
        i <= content_end(s, i) <= line_break(s, i),
{
    lemma_find_char_in_range(s, '\n', i, s.len() as int);
}

/// The first position of `c` in `s` within `[from, end)`, as the spec scan
/// names it.
pub fn find_char_in_text(s: &Vec<char>, c: char, from: usize, end: usize) -> (r: Option<usize>)
    requires
        from <= end <= s@.len(),
    ensures
        match r {
            Some(j) => from <= j < end && find_char_in(s@, c, from as int, end as int) == Some(
                j as int,
            ),
            None => find_char_in(s@, c, from as int, end as int) is None,
        },
{
    let mut i: usize = from;
    while i < end
        invariant
            from <= i <= end <= s@.len(),
            find_char_in(s@, c, from as int, end as int) == find_char_in(
                s@,
                c,
                i as int,
                end as int,
            ),
        decreases end - i,
    {
        if s[i] == c {
            return Some(i);
        }
        i = i + 1;
    }
    None
}

/// The last position of `c` in `s` within `[from, end)`, as the spec scan
/// names it.
pub fn find_char_last_in_text(s: &Vec<char>, c: char, from: usize, end: usize) -> (r: Option<
    usize,
>)
    requires
        from <= end <= s@.len(),
    ensures
        match r {
            Some(j) => from <= j < end && find_char_last(s@, c, from as int, end as int) == Some(
                j as int,
            ),
            None => find_char_last(s@, c, from as int, end as int) is None,
        },
{
    let mut e: usize = end;
    while e > from
        invariant
            from <= e <= end <= s@.len(),
            find_char_last(s@, c, from as int, end as int) == find_char_last(
                s@,
                c,
                from as int,
                e as int,
            ),
        decreases e,
    {
        if s[e - 1] == c {
            return Some(e - 1);
        }
        e = e - 1;
    }
    None
}

/// Whether the marker begins at position `j` of `s`.
fn marker_at(s: &Vec<char>, j: usize) -> (r: bool)
    requires
        j + 8 <= s@.len(),
    ensures
        r == (s@.subrange(j as int, j + 8) == marker()),
{
    let n = s.len();
    proof {
        assert(j + 8 <= n);
    }
    let hit = s[j] == '#' && s[j + 1] == 'i' && s[j + 2] == 'n' && s[j + 3] == 'c' && s[j + 4]
        == 'l' && s[j + 5] == 'u' && s[j + 6] == 'd' && s[j + 7] == 'e';
    proof {
        if hit {
            assert(s@.subrange(j as int, j + 8) =~= marker());
        } else {
            assert(s@.subrange(j as int, j + 8) != marker()) by {
                if s@.subrange(j as int, j + 8) == marker() {
                    assert(s@[j as int] == marker()[0]);
                    assert(s@[j + 1] == marker()[1]);
                    assert(s@[j + 2] == marker()[2]);
                    assert(s@[j + 3] == marker()[3]);
                    assert(s@[j + 4] == marker()[4]);
                    assert(s@[j + 5] == marker()[5]);
                    assert(s@[j + 6] == marker()[6]);
                    assert(s@[j + 7] == marker()[7]);
                }
            }
        }
    }
    hit
}

/// The first position in `[from, end)` where the marker begins, as the spec
/// scan names it.
pub fn find_marker_in_text(s: &Vec<char>, from: usize, end: usize) -> (r: Option<usize>)
    requires
        from <= end <= s@.len(),
    ensures
        match r {
            Some(j) => from <= j && j + 8 <= end && find_marker(s@, from as int, end as int)
                == Some(j as int),
            None => find_marker(s@, from as int, end as int) is None,
        },
{
    if end < 8 {
        return None;
    }
    let mut i: usize = from;
    while i <= end - 8
        invariant
            8 <= end,
            from <= i <= end <= s@.len(),
            find_marker(s@, from as int, end as int) == find_marker(s@, i as int, end as int),
        decreases end - i,
    {
        if marker_at(s, i) {
            return Some(i);
        }
        i = i + 1;
    }
    None
}

/// The path carried by the line `[a, c)`, as the spec scan names it.
pub fn match_line_in_text(s: &Vec<char>, a: usize, c: usize) -> (r: Option<Vec<char>>)
    requires
        a <= c <= s@.len(),
    ensures
        match r {
            Some(p) => match_line(s@, a as int, c as int) == Some(p@),
            None => match_line(s@, a as int, c as int) is None,
        },
{
    match find_marker_in_text(s, a, c) {
        None => None,
        Some(j) => match find_char_in_text(s, '<', j + 8, c) {
            None => None,
            Some(k) => match find_char_last_in_text(s, '>', k + 1, c) {
                None => None,
                Some(m) => Some(copy_range(s, k + 1, m)),
            },
        },
    }
}

/// The first directive of the whole text, as the spec scan names it: the
/// start and content end of its line, and the path it names.
pub fn next_directive(s: &Vec<char>) -> (r: Option<(usize, usize, Vec<char>)>)
    ensures
        match r {
            Some((a, c, p)) => a <= c <= s@.len() && next_directive_from(s@, 0) == Some(
                (a as int, c as int, p@),
            ),
            None => next_directive_from(s@, 0) is None,
        },
{
    let n = s.len();
    let mut i: usize = 0;
    loop
        invariant
            0 <= i <= n,
            n == s@.len(),
            next_directive_from(s@, 0) == next_directive_from(s@, i as int),
        decreases n - i,
    {
        let e = match find_char_in_text(s, '\n', i, n) {
            Some(j) => j,
            None => n,
        };
        proof {
            assert(e as int == line_break(s@, i as int));
        }
        let c = if e > i && s[e - 1] == '\r' {
            e - 1
        } else {
            e
        };
        proof {
            assert(c as int == content_end(s@, i as int));
        }
        match match_line_in_text(s, i, c) {
            Some(p) => {
                return Some((i, c, p));
            },
            None => {
                if e >= n {
                    return None;
                }
                i = e + 1;
            },
        }
    }
}

/// The marker text, for building directive lines at run time.
pub fn directive_token() -> (r: String)
    ensures
        r@ == marker(),
{
    let v: Vec<char> = vec!['#', 'i', 'n', 'c', 'l', 'u', 'd', 'e'];
    proof {
        assert(v@ =~= marker());
    }
    crate::text::string_of(&v)
}

} // verus!
