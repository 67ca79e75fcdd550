//! Errors of the library.
use vstd::prelude::*;

verus! {

#[verifier::external_type_specification]
#[verifier::external_body]
pub struct ExIoError(std::io::Error);

/// Why a KRC buffer could not be decoded.
#[derive(Debug)]
pub enum DecodeError {
    /// The buffer is shorter than its 4-byte header.
    MalformedInput,
    /// The deciphered bytes are not a valid zlib stream; holds the decoder's error.
    DecompressionError(std::io::Error),
    /// The inflated bytes are not valid UTF-8.
    EncodingError,
    /// A line marker holds a time beyond `MAX_MARKER_MS`.
    TimeOutOfRange,
}

/// Why a file was not taken as a KRC file.
#[derive(Debug)]
pub enum MyError {
    /// The file, named here, does not start with the `krc` tag.
    NotKrcFile(String),
}

} // verus!
