//! What a KRC file's name and first bytes say about it.
use vstd::prelude::*;

use crate::error::MyError;
use crate::text::{chars_of, string_of};

verus! {

/// Whether `b` starts with the tag `krc` of a KRC file.
pub open spec fn has_krc_tag(b: Seq<u8>) -> bool {
    b.len() >= 3 && b[0] == 107u8 && b[1] == 114u8 && b[2] == 99u8
}

/// Whether the path `p` ends with the extension `.krc`, in any ASCII case.
pub open spec fn has_krc_extension(p: Seq<char>) -> bool {
    let n = p.len() as int;
    n >= 4 && p[n - 4] == '.' && (p[n - 3] == 'k' || p[n - 3] == 'K') && (p[n - 2] == 'r'
        || p[n - 2] == 'R') && (p[n - 1] == 'c' || p[n - 1] == 'C')
}

/// The path `p` without its `.krc` extension, where it has one.
pub open spec fn krc_base_name(p: Seq<char>) -> Seq<char> {
    if has_krc_extension(p) {
        p.take(p.len() - 4)
    } else {
        p
    }
}

/// Accepts the contents of the file `krc_file` as KRC data only when they
/// start with the `krc` tag.
pub fn check_krc_file(krc_file: &str, krc_bytes: &Vec<u8>) -> (r: Result<(), MyError>)
    ensures
        r is Ok <==> has_krc_tag(krc_bytes@),
        r matches Err(MyError::NotKrcFile(name)) ==> name@ == krc_file@,
{
    if krc_bytes.len() >= 3 && krc_bytes[0] == 107 && krc_bytes[1] == 114 && krc_bytes[2] == 99 {
        Ok(())
    } else {
        Err(MyError::NotKrcFile(krc_file.to_owned()))
    }
}

/// The path `krc_file` without its `.krc` extension (in any ASCII case), to
/// which the extension of an output file is added.
pub fn get_file_name(krc_file: &str) -> (r: String)
    ensures
        r@ == krc_base_name(krc_file@),
{
    let p = chars_of(krc_file);
    let n: usize = p.len();
    if n >= 4 && p[n - 4] == '.' && (p[n - 3] == 'k' || p[n - 3] == 'K') && (p[n - 2] == 'r'
        || p[n - 2] == 'R') && (p[n - 1] == 'c' || p[n - 1] == 'C') {
        let mut base: Vec<char> = Vec::new();
        let mut i: usize = 0;
        while i < n - 4
            invariant
                i <= n - 4,
                n == p@.len(),
                base@ == p@.take(i as int),
            decreases n - 4 - i,
        {
            base.push(p[i]);
            assert(base@ =~= p@.take(i + 1));
            i = i + 1;
        }
        string_of(&base)
    } else {
        string_of(&p)
    }
}

} // verus!
