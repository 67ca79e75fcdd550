//! Rewriting of line markers `[start,duration]` into LRC timestamps, with
//! blank filler lines over long silences.
use vstd::prelude::*;

use crate::text::{chars_of, digits_end, is_digit, lines_from, next_line, string_of, text_lines};
use crate::timestamp::{lrc_timestamp, push_timestamp};

verus! {

/// The largest start time or duration, in milliseconds, that a line marker
/// may hold.
pub const MAX_MARKER_MS: u64 = 4294967295;

/// The value of an ASCII digit.
pub open spec fn digit_value(c: char) -> nat {
    ((c as u32) - 48) as nat
}

/// The number that a run of ASCII digits writes in decimal.
pub open spec fn digits_value(d: Seq<char>) -> nat
    decreases d.len(),
{
    if d.len() == 0 {
        0
    } else {
        digits_value(d.drop_last()) * 10 + digit_value(d.last())
    }
}

/// The line marker `[start,duration]` at the very start of line `l`, if
/// there is one: its start time, its duration, and its length in characters.
pub open spec fn line_marker(l: Seq<char>) -> Option<(nat, nat, int)> {
    let a = digits_end(l, 1);
    let b = digits_end(l, a + 1);
    if l.len() > 0 && l[0] == '[' && a > 1 && a < l.len() && l[a] == ',' && b > a + 1 && b
        < l.len() && l[b] == ']' {
        Some((digits_value(l.subrange(1, a)), digits_value(l.subrange(a + 1, b)), b + 1))
    } else {
        None
    }
}

/// Whether the times of the marker of line `l`, if it has one, are within
/// `MAX_MARKER_MS`.
pub open spec fn marker_in_range(l: Seq<char>) -> bool {
    match line_marker(l) {
        Some((start, duration, _)) => start <= MAX_MARKER_MS && duration <= MAX_MARKER_MS,
        None => true,
    }
}

/// Whether every line marker among `lines` is within range.
pub open spec fn markers_in_range(lines: Seq<Seq<char>>) -> bool {
    forall|k: int| 0 <= k < lines.len() ==> marker_in_range(#[trigger] lines[k])
}

/// What line `l` becomes when the previous marked line ended at `latest`,
/// with gap threshold `threshold`, and when the next one may start: an
/// unmarked line is kept as it is; a marked line gets its start timestamp in
/// place of its marker, preceded by a filler line holding only the timestamp
/// `latest` when the line starts more than `threshold` after `latest`.
pub open spec fn convert_line(l: Seq<char>, latest: nat, threshold: int) -> (Seq<char>, nat) {
    match line_marker(l) {
        None => (l + seq!['\n'], latest),
        Some((start, duration, len)) => {
            let filler = if latest < start - threshold {
                lrc_timestamp(latest) + seq!['\n']
            } else {
                seq![]
            };
            (filler + lrc_timestamp(start) + l.skip(len) + seq!['\n'], start + duration)
        },
    }
}

/// The LRC text made of `lines`, when the last marked line before them ended
/// at `latest`: each line converted in order, each ending with `'\n'`.
pub open spec fn transcode_lines(lines: Seq<Seq<char>>, latest: nat, threshold: int) -> Seq<char>
    decreases lines.len(),
{
    if lines.len() == 0 {
        seq![]
    } else {
        let (piece, next) = convert_line(lines[0], latest, threshold);
        piece + transcode_lines(lines.drop_first(), next, threshold)
    }
}

/// The LRC text of the lyric document `doc`, whose lines still carry their
/// `[start,duration]` markers; time starts at 0.
pub open spec fn transcode(doc: Seq<char>, threshold: int) -> Seq<char> {
    transcode_lines(text_lines(doc), 0, threshold)
}

/// Each line followed by `'\n'`, in order.
pub open spec fn newline_terminated(lines: Seq<Seq<char>>) -> Seq<char>
    decreases lines.len(),
{
    if lines.len() == 0 {
        seq![]
    } else {
        lines[0] + seq!['\n'] + newline_terminated(lines.drop_first())
    }
}

/// A marked line is preceded by exactly one filler line, the timestamp of
/// `latest` alone, when it starts more than `threshold` after `latest`, and
/// by none otherwise; the next line is then measured from its end.
pub proof fn filler_exactly_when_gap_exceeds(l: Seq<char>, latest: nat, threshold: int)
    requires
        line_marker(l) is Some,
    ensures
        ({
            let (start, duration, len) = line_marker(l)->0;
            let converted = lrc_timestamp(start) + l.skip(len) + seq!['\n'];
            let (piece, next) = convert_line(l, latest, threshold);
            &&& latest < start - threshold ==> piece == lrc_timestamp(latest) + seq!['\n']
                + converted
            &&& latest >= start - threshold ==> piece == converted
            &&& next == start + duration
        }),
{
    let (start, duration, len) = line_marker(l)->0;
    let converted = lrc_timestamp(start) + l.skip(len) + seq!['\n'];
    if latest < start - threshold {
        assert(lrc_timestamp(latest) + seq!['\n'] + lrc_timestamp(start) + l.skip(len) + seq![
            '\n',
        ] =~= lrc_timestamp(latest) + seq!['\n'] + converted);
    } else {
        assert(seq![] + lrc_timestamp(start) + l.skip(len) + seq!['\n'] =~= converted);
    }
}

/// A line without a leading `[start,duration]` marker is copied as it is,
/// followed by `'\n'`, and leaves the end of the last marked line as it was.
pub proof fn unmarked_line_passes_through(l: Seq<char>, latest: nat, threshold: int)
    requires
        line_marker(l) is None,
    ensures
        convert_line(l, latest, threshold) == (l + seq!['\n'], latest),
{
}

/// Lines none of which carries a marker come out as they are, each followed
/// by `'\n'`, whatever the threshold.
pub proof fn unmarked_lines_pass_through(lines: Seq<Seq<char>>, latest: nat, threshold: int)
    requires
        forall|k: int| 0 <= k < lines.len() ==> (#[trigger] line_marker(lines[k])) is None,
    ensures
        transcode_lines(lines, latest, threshold) == newline_terminated(lines),
    decreases lines.len(),
{
    if lines.len() > 0 {
        let rest = lines.drop_first();
        assert(line_marker(lines[0]) is None);
        assert forall|k: int| 0 <= k < rest.len() implies (#[trigger] line_marker(
            rest[k],
        )) is None by {
            assert(rest[k] == lines[k + 1]);
            assert(line_marker(lines[k + 1]) is None);
        }
        unmarked_lines_pass_through(rest, latest, threshold);
    }
}

proof fn lemma_in_range_cons(line: Seq<char>, rest: Seq<Seq<char>>)
    ensures
        markers_in_range(seq![line] + rest) == (marker_in_range(line) && markers_in_range(rest)),
{
    let all = seq![line] + rest;
    assert(all[0] == line);
    assert forall|k: int| 0 <= k < rest.len() implies rest[k] == #[trigger] all[k + 1] by {}
    if markers_in_range(all) {
        assert forall|k: int| 0 <= k < rest.len() implies marker_in_range(
            #[trigger] rest[k],
        ) by {
            assert(marker_in_range(all[k + 1]));
        }
    }
}

proof fn lemma_transcode_cons(line: Seq<char>, rest: Seq<Seq<char>>, latest: nat, threshold: int)
    ensures
        transcode_lines(seq![line] + rest, latest, threshold) == convert_line(
            line,
            latest,
            threshold,
        ).0 + transcode_lines(rest, convert_line(line, latest, threshold).1, threshold),
{
    let all = seq![line] + rest;
    assert(all[0] == line);
    assert(all.drop_first() =~= rest);
}

/// Reads the run of digits of `l` that starts at `i`: where it ends, and its
/// value where that is at most `MAX_MARKER_MS`.
fn scan_number(l: &Vec<char>, i: usize) -> (r: (usize, Option<u64>))
    requires
        i <= l@.len(),
    ensures
        r.0 == digits_end(l@, i as int),
        i <= r.0 <= l@.len(),
        match r.1 {
            Some(v) => v == digits_value(l@.subrange(i as int, r.0 as int)) && v <= MAX_MARKER_MS,
            None => digits_value(l@.subrange(i as int, r.0 as int)) > MAX_MARKER_MS,
        },
{
    let n: usize = l.len();
    let mut j: usize = i;
    let mut v: u64 = 0;
    let mut over = false;
    assert(l@.subrange(i as int, i as int).len() == 0);
    while j < n && is_digit(l[j])
        invariant
            i <= j <= n,
            n == l@.len(),
            digits_end(l@, i as int) == digits_end(l@, j as int),
            !over ==> v == digits_value(l@.subrange(i as int, j as int)) && v <= MAX_MARKER_MS,
            over ==> digits_value(l@.subrange(i as int, j as int)) > MAX_MARKER_MS,
        decreases n - j,
    {
        let ghost before = l@.subrange(i as int, j as int);
        let ghost after = l@.subrange(i as int, j + 1);
        assert(after.drop_last() =~= before);
        assert(after.last() == l@[j as int]);
        let d = (l[j] as u32 - 48) as u64;
        if !over {
            let w = v * 10 + d;
            if w > MAX_MARKER_MS {
                over = true;
            } else {
                v = w;
            }
        }
        j = j + 1;
    }
    if over {
        (j, None)
    } else {
        (j, Some(v))
    }
}

/// What `scan_marker` found at the start of a line.
enum MarkerScan {
    Plain,
    Marked(u64, u64, usize),
    OutOfRange,
}

fn scan_marker(l: &Vec<char>) -> (r: MarkerScan)
    ensures
        match r {
            MarkerScan::Plain => line_marker(l@) is None,
            MarkerScan::Marked(start, duration, len) => line_marker(l@) == Some(
                (start as nat, duration as nat, len as int),
            ) && start <= MAX_MARKER_MS && duration <= MAX_MARKER_MS,
            MarkerScan::OutOfRange => !marker_in_range(l@),
        },
{
    let n: usize = l.len();
    if n == 0 || l[0] != '[' {
        return MarkerScan::Plain;
    }
    let (a, start) = scan_number(l, 1);
    if a == 1 || a >= n || l[a] != ',' {
        return MarkerScan::Plain;
    }
    let (b, duration) = scan_number(l, a + 1);
    if b == a + 1 || b >= n || l[b] != ']' {
        return MarkerScan::Plain;
    }
    match (start, duration) {
        (Some(s), Some(d)) => MarkerScan::Marked(s, d, b + 1),
        _ => MarkerScan::OutOfRange,
    }
}

/// Appends `v[from..]` to `out`.
fn push_tail(out: &mut Vec<char>, v: &Vec<char>, from: usize)
    requires
        from <= v@.len(),
    ensures
        final(out)@ == old(out)@ + v@.skip(from as int),
{
    let ghost start = out@;
    let mut k: usize = from;
    while k < v.len()
        invariant
            from <= k <= v@.len(),
            out@ == start + v@.subrange(from as int, k as int),
        decreases v@.len() - k,
    {
        out.push(v[k]);
        assert(out@ =~= start + v@.subrange(from as int, k + 1));
        k = k + 1;
    }
    assert(v@.subrange(from as int, k as int) =~= v@.skip(from as int));
}

/// Appends line `l` converted to `out`, when the previous marked line ended
/// at `latest`, and returns when the next one may start.
fn push_converted(out: &mut Vec<char>, l: &Vec<char>, latest: u64, threshold: i32) -> (r: u64)
    requires
        latest <= 2 * MAX_MARKER_MS,
        marker_in_range(l@),
    ensures
        final(out)@ == old(out)@ + convert_line(l@, latest as nat, threshold as int).0,
        r == convert_line(l@, latest as nat, threshold as int).1,
        r <= 2 * MAX_MARKER_MS,
{
    let ghost before = out@;
    match scan_marker(l) {
        MarkerScan::Plain => {
            push_tail(out, l, 0);
            out.push('\n');
            assert(l@.skip(0) =~= l@);
            assert(out@ =~= before + (l@ + seq!['\n']));
            latest
        },
        MarkerScan::Marked(start, duration, len) => {
            if (latest as i64) < (start as i64) - (threshold as i64) {
                push_timestamp(out, latest);
                out.push('\n');
            }
            let ghost with_filler = out@;
            push_timestamp(out, start);
            push_tail(out, l, len);
            out.push('\n');
            assert(out@ =~= with_filler + (lrc_timestamp(start as nat) + l@.skip(len as int)
                + seq!['\n']));
            assert(out@ =~= before + convert_line(l@, latest as nat, threshold as int).0);
            start + duration
        },
        MarkerScan::OutOfRange => {
            assert(false);
            latest
        },
    }
}

/// Whether every line marker of `doc` holds times within `MAX_MARKER_MS`,
/// as `replace_krc_time` needs.
pub fn krc_times_in_range(doc: &str) -> (r: bool)
    ensures
        r == markers_in_range(text_lines(doc@)),
{
    let s = chars_of(doc);
    let mut i: usize = 0;
    while i < s.len()
        invariant
            i <= s@.len(),
            s@ == doc@,
            markers_in_range(text_lines(s@)) == markers_in_range(lines_from(s@, i as int)),
        decreases s@.len() - i,
    {
        let (line, next) = next_line(&s, i);
        proof {
            lemma_in_range_cons(line@, lines_from(s@, next as int));
        }
        if let MarkerScan::OutOfRange = scan_marker(&line) {
            return false;
        }
        i = next;
    }
    assert(lines_from(s@, i as int).len() == 0);
    true
}

/// Converts a lyric document whose lines start with `[start,duration]`
/// markers into LRC text: each marker becomes the `[mm:ss.cc]` timestamp of
/// its start, and a filler line holding only a timestamp is put before a
/// line that starts more than `new_line_interval_time` milliseconds after the
/// previous marked line ended.
pub fn replace_krc_time(lrc_content: &str, new_line_interval_time: i32) -> (r: String)
    requires
        markers_in_range(text_lines(lrc_content@)),
    ensures
        r@ == transcode(lrc_content@, new_line_interval_time as int),
{
    let ghost t = new_line_interval_time as int;
    let s = chars_of(lrc_content);
    let mut out: Vec<char> = Vec::new();
    let mut latest: u64 = 0;
    let mut i: usize = 0;
    while i < s.len()
        invariant
            i <= s@.len(),
            s@ == lrc_content@,
            t == new_line_interval_time as int,
            latest <= 2 * MAX_MARKER_MS,
            markers_in_range(lines_from(s@, i as int)),
            out@ + transcode_lines(lines_from(s@, i as int), latest as nat, t) == transcode(
                s@,
                t,
            ),
        decreases s@.len() - i,
    {
        let (line, next) = next_line(&s, i);
        let ghost rest = lines_from(s@, next as int);
        let ghost before = out@;
        let ghost prev = latest as nat;
        proof {
            lemma_in_range_cons(line@, rest);
            lemma_transcode_cons(line@, rest, latest as nat, t);
        }
        latest = push_converted(&mut out, &line, latest, new_line_interval_time);
        let ghost piece = convert_line(line@, prev, t).0;
        assert(out@ =~= before + piece);
        assert(latest as nat == convert_line(line@, prev, t).1);
        assert((before + piece) + transcode_lines(rest, latest as nat, t) =~= before + (piece
            + transcode_lines(rest, latest as nat, t)));
        i = next;
    }
    assert(lines_from(s@, i as int).len() == 0);
    assert(out@ =~= transcode(s@, t));
    string_of(&out)
}

} // verus!
