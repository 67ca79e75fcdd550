//! Removal of the per-word timing annotations `<N,N,N>` from a lyric document.
use vstd::prelude::*;

use crate::text::{chars_of, digits_end, digits_end_exec, string_of};

verus! {

/// Where the word-timing annotation `<digits,digits,digits>` that starts at
/// position `i` of `s` ends (one past its `>`), if one starts there.
pub open spec fn word_marker_end(s: Seq<char>, i: int) -> Option<int> {
    let a = digits_end(s, i + 1);
    let b = digits_end(s, a + 1);
    let c = digits_end(s, b + 1);
    if 0 <= i < s.len() && s[i] == '<' && a > i + 1 && a < s.len() && s[a] == ',' && b > a + 1
        && b < s.len() && s[b] == ',' && c > b + 1 && c < s.len() && s[c] == '>' {
        Some(c + 1)
    } else {
        None
    }
}

/// `s` from position `i` on, with every annotation removed, scanning left to
/// right and resuming after each one removed.
pub open spec fn strip_from(s: Seq<char>, i: int) -> Seq<char>
    decreases s.len() - i,
{
    if i < 0 || i >= s.len() {
        seq![]
    } else {
        match word_marker_end(s, i) {
            Some(e) => strip_from(s, e),
            None => seq![s[i]] + strip_from(s, i + 1),
        }
    }
}

/// The document `s` with every word-timing annotation removed.
pub open spec fn strip_word_timing(s: Seq<char>) -> Seq<char> {
    strip_from(s, 0)
}

/// Whether an annotation starts anywhere in `s`.
pub open spec fn has_word_marker(s: Seq<char>) -> bool {
    exists|i: int| 0 <= i < s.len() && (#[trigger] word_marker_end(s, i)) is Some
}

fn word_marker_at(s: &Vec<char>, i: usize) -> (r: Option<usize>)
    requires
        i < s@.len(),
    ensures
        match word_marker_end(s@, i as int) {
            Some(e) => r == Some(e as usize),
            None => r is None,
        },
{
    let n: usize = s.len();
    if s[i] != '<' {
        return None;
    }
    let a = digits_end_exec(s, i + 1);
    if a == i + 1 || a >= n || s[a] != ',' {
        return None;
    }
    let b = digits_end_exec(s, a + 1);
    if b == a + 1 || b >= n || s[b] != ',' {
        return None;
    }
    let c = digits_end_exec(s, b + 1);
    if c == b + 1 || c >= n || s[c] != '>' {
        return None;
    }
    Some(c + 1)
}

/// Removes every word-timing annotation `<N,N,N>` from `krc_raw`, leaving
/// all other characters in place.
pub fn replace_krc_raw(krc_raw: &str) -> (r: String)
    ensures
        r@ == strip_word_timing(krc_raw@),
{
    let s = chars_of(krc_raw);
    let mut out: Vec<char> = Vec::new();
    let mut i: usize = 0;
    while i < s.len()
        invariant
            i <= s@.len(),
            out@ + strip_from(s@, i as int) == strip_word_timing(s@),
        decreases s@.len() - i,
    {
        match word_marker_at(&s, i) {
            Some(e) => {
                i = e;
            },
            None => {
                let ghost before = out@;
                out.push(s[i]);
                assert(before + strip_from(s@, i as int) =~= out@ + strip_from(s@, i + 1));
                i = i + 1;
            },
        }
    }
    string_of(&out)
}


proof fn lemma_strip_from_len(s: Seq<char>, i: int)
    requires
        0 <= i <= s.len(),
    ensures
        strip_from(s, i).len() <= s.len() - i,
        (exists|j: int| i <= j < s.len() && (#[trigger] word_marker_end(s, j)) is Some) ==> strip_from(
            s,
            i,
        ).len() < s.len() - i,
        (forall|j: int| i <= j < s.len() ==> (#[trigger] word_marker_end(s, j)) is None)
            ==> strip_from(s, i) == s.skip(i),
    decreases s.len() - i,
{
    if i < s.len() {
        match word_marker_end(s, i) {
            Some(e) => {
                lemma_strip_from_len(s, e);
            },
            None => {
                lemma_strip_from_len(s, i + 1);
                if forall|j: int| i <= j < s.len() ==> (#[trigger] word_marker_end(s, j)) is None {
                    assert(seq![s[i]] + s.skip(i + 1) =~= s.skip(i));
                }
            },
        }
    } else {
        assert(s.skip(i) =~= seq![]);
    }
}

/// Stripping leaves a document unchanged exactly when no word-timing
/// annotation starts anywhere in it; otherwise it makes it shorter.
pub proof fn strip_fixes_exactly_marker_free(s: Seq<char>)
    ensures
        strip_word_timing(s) == s <==> !has_word_marker(s),
        has_word_marker(s) ==> strip_word_timing(s).len() < s.len(),
        strip_word_timing(s).len() <= s.len(),
{
    lemma_strip_from_len(s, 0);
    assert(s.skip(0) =~= s);
}

/// Whether every `'<'` of `s` opens a word-timing annotation.
pub open spec fn every_angle_opens_marker(s: Seq<char>) -> bool {
    forall|i: int| 0 <= i < s.len() && s[i] == '<' ==> (#[trigger] word_marker_end(s, i)) is Some
}

proof fn lemma_strip_from_no_angle(s: Seq<char>, i: int)
    requires
        0 <= i <= s.len(),
        every_angle_opens_marker(s),
    ensures
        forall|k: int| 0 <= k < strip_from(s, i).len() ==> #[trigger] strip_from(s, i)[k] != '<',
    decreases s.len() - i,
{
    if i < s.len() {
        match word_marker_end(s, i) {
            Some(e) => {
                lemma_strip_from_no_angle(s, e);
                assert(strip_from(s, i) == strip_from(s, e));
            },
            None => {
                lemma_strip_from_no_angle(s, i + 1);
                let rest = strip_from(s, i + 1);
                assert(strip_from(s, i) == seq![s[i]] + rest);
                assert(s[i] != '<');
                assert forall|k: int| 0 <= k < strip_from(s, i).len() implies #[trigger] strip_from(
                    s,
                    i,
                )[k] != '<' by {
                    if k > 0 {
                        assert(strip_from(s, i)[k] == rest[k - 1]);
                    } else {
                        assert(strip_from(s, i)[k] == s[i]);
                    }
                }
            },
        }
    }
}

/// Where every `'<'` of a document opens a word-timing annotation, the
/// stripped document holds none, so stripping it again changes nothing.
pub proof fn strip_idempotent_when_angles_open_markers(s: Seq<char>)
    requires
        every_angle_opens_marker(s),
    ensures
        !has_word_marker(strip_word_timing(s)),
        strip_word_timing(strip_word_timing(s)) == strip_word_timing(s),
{
    lemma_strip_from_no_angle(s, 0);
    let t = strip_word_timing(s);
    assert forall|i: int| 0 <= i < t.len() implies (#[trigger] word_marker_end(t, i)) is None by {
        assert(t[i] != '<');
    }
    strip_word_timing_idempotent(s);
}

/// Stripping twice gives what stripping once gives, exactly when the once
/// stripped document holds no annotation (removing one annotation can bring
/// the characters around it together into a new one).
pub proof fn strip_word_timing_idempotent(s: Seq<char>)
    ensures
        strip_word_timing(strip_word_timing(s)) == strip_word_timing(s) <==> !has_word_marker(
            strip_word_timing(s),
        ),
{
    strip_fixes_exactly_marker_free(strip_word_timing(s));
}

} // verus!
