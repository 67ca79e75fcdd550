//! The whole conversion: KRC bytes, or a decoded KRC document, to LRC text.
use vstd::prelude::*;

use crate::decode::{decode_fails_with, decode_krc, decoded_text};
use crate::error::DecodeError;
use crate::strip::{replace_krc_raw, strip_word_timing};
use crate::text::text_lines;
use crate::transcode::{krc_times_in_range, markers_in_range, replace_krc_time, transcode};

verus! {

/// The LRC text of a decoded KRC document: word timings removed, then line
/// markers turned into timestamps with gap threshold `threshold`.
pub open spec fn lrc_of(krc_raw: Seq<char>, threshold: int) -> Seq<char> {
    transcode(strip_word_timing(krc_raw), threshold)
}

/// Whether the line markers of a decoded KRC document, once its word
/// timings are removed, all hold times in range.
pub open spec fn krc_raw_in_range(krc_raw: Seq<char>) -> bool {
    markers_in_range(text_lines(strip_word_timing(krc_raw)))
}

/// Converts a decoded KRC document into LRC text.
pub fn replace_krc_to_lrc(krc_raw: String, new_line_interval_time: i32) -> (r: String)
    requires
        krc_raw_in_range(krc_raw@),
    ensures
        r@ == lrc_of(krc_raw@, new_line_interval_time as int),
{
    let lrc_not_time = replace_krc_raw(krc_raw.as_str());
    replace_krc_time(lrc_not_time.as_str(), new_line_interval_time)
}

/// Decodes the bytes of a KRC file and converts the document into LRC text.
pub fn krc_to_lrc(krc_bytes: Vec<u8>, new_line_interval_time: i32) -> (r: Result<
    String,
    DecodeError,
>)
    ensures
        match decoded_text(krc_bytes@) {
            None => r matches Err(e) && decode_fails_with(krc_bytes@, e),
            Some(text) => if krc_raw_in_range(text) {
                r matches Ok(s) && s@ == lrc_of(text, new_line_interval_time as int)
            } else {
                r matches Err(DecodeError::TimeOutOfRange)
            },
        },
{
    let krc_raw = match decode_krc(krc_bytes) {
        Ok(text) => text,
        Err(e) => return Err(e),
    };
    let lrc_not_time = replace_krc_raw(krc_raw.as_str());
    if !krc_times_in_range(lrc_not_time.as_str()) {
        return Err(DecodeError::TimeOutOfRange);
    }
    Ok(replace_krc_time(lrc_not_time.as_str(), new_line_interval_time))
}

} // verus!
