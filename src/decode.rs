//! The decipher and inflate stage: KRC bytes to the lyric document.
use vstd::prelude::*;
use vstd::utf8::{decode_utf8, valid_utf8};

use crate::error::DecodeError;

verus! {

/// The length of the header that precedes the enciphered payload.
pub const HEADER_LEN: usize = 4;

/// The fixed key that the payload is XOR-ed with, cyclically.
pub open spec fn krc_key() -> Seq<u8> {
    seq![64u8, 71u8, 97u8, 119u8, 94u8, 50u8, 116u8, 71u8, 81u8, 54u8, 49u8, 45u8, 206u8, 210u8, 110u8, 105u8]
}

/// The payload of `c` deciphered: byte `i` after the header XOR key byte `i mod 16`.
pub open spec fn decipher(c: Seq<u8>) -> Seq<u8>
    recommends
        c.len() >= HEADER_LEN,
{
    Seq::new((c.len() - HEADER_LEN) as nat, |i: int| c[i + HEADER_LEN] ^ krc_key()[i % 16])
}

/// What a zlib decoder yields for `data`: the inflated bytes, or nothing where
/// `data` is not a complete, valid zlib stream.
pub uninterp spec fn zlib_inflate(data: Seq<u8>) -> Option<Seq<u8>>;

/// The lyric document that the KRC bytes `c` hold, where they hold one.
pub open spec fn decoded_text(c: Seq<u8>) -> Option<Seq<char>> {
    if c.len() < HEADER_LEN {
        None
    } else {
        match zlib_inflate(decipher(c)) {
            Some(p) => if valid_utf8(p) {
                Some(decode_utf8(p))
            } else {
                None
            },
            None => None,
        }
    }
}

/// Whether decoding `c` fails with `err`, and with no other error.
pub open spec fn decode_fails_with(c: Seq<u8>, err: DecodeError) -> bool {
    if c.len() < HEADER_LEN {
        err is MalformedInput
    } else {
        match zlib_inflate(decipher(c)) {
            None => err is DecompressionError,
            Some(p) => !valid_utf8(p) && err is EncodingError,
        }
    }
}

/// Decoding is a function of the bytes alone: equal bytes give equal text,
/// or fail alike.
pub proof fn decode_is_deterministic(a: Seq<u8>, b: Seq<u8>)
    requires
        a == b,
    ensures
        decoded_text(a) == decoded_text(b),
        forall|e: DecodeError| decode_fails_with(a, e) <==> decode_fails_with(b, e),
{
}

/// Key byte `i mod 16`.
fn key_byte(i: usize) -> (b: u8)
    ensures
        b == krc_key()[(i % 16) as int],
{
    let key: [u8; 16] = [64, 71, 97, 119, 94, 50, 116, 71, 81, 54, 49, 45, 206, 210, 110, 105];
    assert(key@ =~= krc_key());
    key[i % 16]
}

/// Inflates a zlib stream.
///
/// Relies on flate2's `read::ZlibDecoder` read to its end: over bytes in
/// memory the outcome depends on the bytes alone, and a corrupt or incomplete
/// stream is an error.
#[verifier::external_body]
fn inflate(data: &Vec<u8>) -> (r: Result<Vec<u8>, std::io::Error>)
    ensures
        match r {
            Ok(v) => zlib_inflate(data@) == Some(v@),
            Err(_) => zlib_inflate(data@) is None,
        },
{
    let mut out = Vec::new();
    let mut decoder = flate2::read::ZlibDecoder::new(&data[..]);
    match std::io::Read::read_to_end(&mut decoder, &mut out) {
        Ok(_) => Ok(out),
        Err(e) => Err(e),
    }
}

/// Reads bytes as UTF-8 text.
///
/// Relies on `String::from_utf8`: it accepts exactly the valid UTF-8
/// sequences, and the string holds the characters they encode.
#[verifier::external_body]
fn utf8_string(bytes: Vec<u8>) -> (r: Option<String>)
    ensures
        match r {
            Some(s) => valid_utf8(bytes@) && s@ == decode_utf8(bytes@),
            None => !valid_utf8(bytes@),
        },
{
    String::from_utf8(bytes).ok()
}

/// Deciphers the payload of a KRC buffer: the bytes after the header, each
/// XOR-ed with the key byte of its position.
pub fn decipher_krc(krc_bytes: &Vec<u8>) -> (r: Vec<u8>)
    requires
        krc_bytes@.len() >= HEADER_LEN,
    ensures
        r@ == decipher(krc_bytes@),
{
    let n: usize = krc_bytes.len();
    let mut buffer: Vec<u8> = Vec::with_capacity(n - HEADER_LEN);
    let mut i: usize = HEADER_LEN;
    while i < n
        invariant
            HEADER_LEN <= i <= n,
            n == krc_bytes@.len(),
            buffer@ =~= decipher(krc_bytes@).take(i - HEADER_LEN),
        decreases n - i,
    {
        buffer.push(krc_bytes[i] ^ key_byte(i - HEADER_LEN));
        i = i + 1;
    }
    assert(decipher(krc_bytes@).take(n - HEADER_LEN) =~= decipher(krc_bytes@));
    buffer
}

/// Decodes the bytes of a KRC file into its lyric document.
pub fn decode_krc(krc_bytes: Vec<u8>) -> (r: Result<String, DecodeError>)
    ensures
        match r {
            Ok(s) => decoded_text(krc_bytes@) == Some(s@),
            Err(e) => decoded_text(krc_bytes@) is None && decode_fails_with(krc_bytes@, e),
        },
        krc_bytes@.len() < HEADER_LEN <==> r matches Err(DecodeError::MalformedInput),
{
    if krc_bytes.len() < HEADER_LEN {
        return Err(DecodeError::MalformedInput);
    }
    let buffer = decipher_krc(&krc_bytes);
    match inflate(&buffer) {
        Err(e) => Err(DecodeError::DecompressionError(e)),
        Ok(plain) => match utf8_string(plain) {
            Some(text) => Ok(text),
            None => Err(DecodeError::EncodingError),
        },
    }
}

} // verus!
