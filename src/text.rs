//! Character-level helpers shared by the lyric scanners.
use vstd::prelude::*;

verus! {

/// Whether `c` is an ASCII decimal digit.
pub open spec fn is_digit_spec(c: char) -> bool {
    '0' <= c && c <= '9'
}

/// Whether `c` is an ASCII decimal digit.
#[verifier::when_used_as_spec(is_digit_spec)]
pub(crate) fn is_digit(c: char) -> (r: bool)
    ensures
        r == is_digit_spec(c),
{
    '0' <= c && c <= '9'
}

/// The position just past the run of ASCII digits of `s` that starts at `i`.
pub open spec fn digits_end(s: Seq<char>, i: int) -> int
    decreases s.len() - i,
{
    if 0 <= i < s.len() && is_digit_spec(s[i]) {
        digits_end(s, i + 1)
    } else {
        i
    }
}

/// Position just past the run of ASCII digits of `s` that starts at `i`.
pub(crate) fn digits_end_exec(s: &Vec<char>, i: usize) -> (r: usize)
    requires
        i <= s@.len(),
    ensures
        r == digits_end(s@, i as int),
        i <= r <= s@.len(),
{
    let mut j: usize = i;
    while j < s.len() && is_digit(s[j])
        invariant
            i <= j <= s@.len(),
            digits_end(s@, i as int) == digits_end(s@, j as int),
        decreases s@.len() - j,
    {
        j = j + 1;
    }
    j
}

/// The position of the first `'\n'` of `s` at or after `i`, or the length of
/// `s` where there is none.
pub open spec fn line_end(s: Seq<char>, i: int) -> int
    decreases s.len() - i,
{
    if 0 <= i < s.len() && s[i] != '\n' {
        line_end(s, i + 1)
    } else {
        i
    }
}

/// Where the text of the line that starts at `i` ends: before its `'\n'`, or
/// before the `'\r'` of a `"\r\n"` terminator.
pub open spec fn content_end(s: Seq<char>, i: int) -> int {
    let e = line_end(s, i);
    if i < e < s.len() && s[e - 1] == '\r' {
        e - 1
    } else {
        e
    }
}

/// Where the line after the one that starts at `i` starts.
pub open spec fn next_line_start(s: Seq<char>, i: int) -> int {
    let e = line_end(s, i);
    if e < s.len() {
        e + 1
    } else {
        e
    }
}

/// The lines of `s` from position `i` on, without their terminators
/// (`"\n"` or `"\r\n"`); a last line needs no terminator.
pub open spec fn lines_from(s: Seq<char>, i: int) -> Seq<Seq<char>>
    decreases s.len() - i,
    via lines_from_decreases
{
    if i < 0 || i >= s.len() {
        seq![]
    } else {
        seq![s.subrange(i, content_end(s, i))] + lines_from(s, next_line_start(s, i))
    }
}

#[via_fn]
proof fn lines_from_decreases(s: Seq<char>, i: int) {
    if 0 <= i < s.len() {
        lemma_line_end_bounds(s, i);
    }
}

/// The lines of the text `s`; an empty text has none.
pub open spec fn text_lines(s: Seq<char>) -> Seq<Seq<char>> {
    lines_from(s, 0)
}

proof fn lemma_line_end_bounds(s: Seq<char>, i: int)
    requires
        0 <= i <= s.len(),
    ensures
        i <= line_end(s, i) <= s.len(),
        line_end(s, i) < s.len() ==> s[line_end(s, i)] == '\n',
    decreases s.len() - i,
{
    if i < s.len() && s[i] != '\n' {
        lemma_line_end_bounds(s, i + 1);
    }
}

/// Reads the line of `s` that starts at `i`: its text, and where the next
/// line starts.
pub(crate) fn next_line(s: &Vec<char>, i: usize) -> (r: (Vec<char>, usize))
    requires
        i < s@.len(),
    ensures
        r.0@ == s@.subrange(i as int, content_end(s@, i as int)),
        r.1 == next_line_start(s@, i as int),
        i < r.1 <= s@.len(),
        lines_from(s@, i as int) == seq![r.0@] + lines_from(s@, r.1 as int),
{
    let n: usize = s.len();
    let mut e: usize = i;
    while e < n && s[e] != '\n'
        invariant
            i <= e <= n,
            n == s@.len(),
            line_end(s@, i as int) == line_end(s@, e as int),
        decreases n - e,
    {
        e = e + 1;
    }
    proof {
        lemma_line_end_bounds(s@, e as int);
    }
    let end: usize = if i < e && e < n && s[e - 1] == '\r' {
        e - 1
    } else {
        e
    };
    let mut line: Vec<char> = Vec::new();
    let mut k: usize = i;
    while k < end
        invariant
            i <= k <= end <= n,
            n == s@.len(),
            line@ == s@.subrange(i as int, k as int),
        decreases end - k,
    {
        line.push(s[k]);
        assert(line@ =~= s@.subrange(i as int, k + 1));
        k = k + 1;
    }
    let next: usize = if e < n {
        e + 1
    } else {
        e
    };
    (line, next)
}

/// The characters of a string slice, in order.
///
/// Relies on `str::chars`: it yields the characters of the slice in order.
#[verifier::external_body]
pub(crate) fn chars_of(s: &str) -> (r: Vec<char>)
    ensures
        r@ == s@,
{
    s.chars().collect()
}

/// Builds a `String` holding exactly the given characters.
///
/// Relies on `String`'s `FromIterator<char>`: the string holds the characters in order.
#[verifier::external_body]
pub(crate) fn string_of(chars: &Vec<char>) -> (r: String)
    ensures
        r@ == chars@,
{
    chars.iter().collect()
}

} // verus!
