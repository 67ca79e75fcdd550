//! LRC timestamps: `[mm:ss.cc]` built from a time in milliseconds.
use vstd::prelude::*;

use crate::text::string_of;

verus! {

/// The decimal digit character for `d` (`0 <= d < 10`).
pub open spec fn digit_char(d: nat) -> char {
    ((48 + d) as u8) as char
}

/// The decimal representation of `n`, without leading zeros.
pub open spec fn decimal(n: nat) -> Seq<char>
    decreases n,
{
    if n < 10 {
        seq![digit_char(n)]
    } else {
        decimal(n / 10).push(digit_char(n % 10))
    }
}

/// `n` in decimal, zero-padded to at least two digits.
pub open spec fn pad2(n: nat) -> Seq<char> {
    if n < 10 {
        seq!['0'] + decimal(n)
    } else {
        decimal(n)
    }
}

/// The LRC timestamp `[mm:ss.cc]` of `ms` milliseconds: whole minutes,
/// then whole seconds within the minute, then whole hundredths within the
/// second, each floored and padded to two digits.
pub open spec fn lrc_timestamp(ms: nat) -> Seq<char> {
    seq!['['] + pad2(ms / 60000) + seq![':'] + pad2((ms % 60000) / 1000) + seq!['.'] + pad2(
        (ms % 1000) / 10,
    ) + seq![']']
}

fn digit(d: u64) -> (c: char)
    requires
        d < 10,
    ensures
        c == digit_char(d as nat),
{
    ((48 + d) as u8) as char
}

fn push_decimal(out: &mut Vec<char>, n: u64)
    ensures
        final(out)@ == old(out)@ + decimal(n as nat),
    decreases n,
{
    if n >= 10 {
        push_decimal(out, n / 10);
    }
    out.push(digit(n % 10));
}

fn push_pad2(out: &mut Vec<char>, n: u64)
    ensures
        final(out)@ == old(out)@ + pad2(n as nat),
{
    if n < 10 {
        out.push('0');
    }
    push_decimal(out, n);
}

/// Appends the LRC timestamp of `ms` to `out`.
pub(crate) fn push_timestamp(out: &mut Vec<char>, ms: u64)
    ensures
        final(out)@ == old(out)@ + lrc_timestamp(ms as nat),
{
    out.push('[');
    push_pad2(out, ms / 60000);
    out.push(':');
    push_pad2(out, (ms % 60000) / 1000);
    out.push('.');
    push_pad2(out, (ms % 1000) / 10);
    out.push(']');
}

/// Formats a non-negative time in milliseconds as an LRC timestamp `[mm:ss.cc]`.
pub fn str_to_time(time: i32) -> (r: String)
    requires
        time >= 0,
    ensures
        r@ == lrc_timestamp(time as nat),
{
    let mut out: Vec<char> = Vec::new();
    push_timestamp(&mut out, time as u64);
    string_of(&out)
}

} // verus!
