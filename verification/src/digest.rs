//! Checksum rendering: the MD5 digest of a byte buffer as an uppercase
//! hexadecimal string.
use vstd::prelude::*;

verus! {

/// The name of what the MD5 digest, rendered in uppercase hexadecimal,
/// returns for a byte sequence.
pub uninterp spec fn md5_hex_of(data: Seq<u8>) -> Seq<char>;

/// An uppercase hexadecimal digit.
pub open spec fn is_upper_hex_digit(c: char) -> bool {
    ('0' <= c && c <= '9') || ('A' <= c && c <= 'F')
}

/// Relies on chksum_md5::hash and Digest::to_hex_uppercase: the digest
/// depends on the bytes alone, and is rendered as two uppercase
/// hexadecimal digits for each of its 16 bytes.
#[verifier::external_body]
fn md5_hex_upper(data: &Vec<u8>) -> (r: String)
    ensures
        r@ == md5_hex_of(data@),
        r@.len() == 32,
        forall|i: int| 0 <= i < r@.len() ==> is_upper_hex_digit(#[trigger] r@[i]),
{
    chksum_md5::hash(data.as_slice()).to_hex_uppercase()
}

/// The content hash of a file read in full: a fixed-width uppercase
/// hexadecimal string, a function of the bytes alone. Two calls on
/// equal contents return the identical string; the caller is expected
/// to hand in the complete contents, never a partial read.
pub fn digest(data: &Vec<u8>) -> (r: String)
    ensures
        r@ == md5_hex_of(data@),
        r@.len() == 32,
        forall|i: int| 0 <= i < r@.len() ==> is_upper_hex_digit(#[trigger] r@[i]),
{
    md5_hex_upper(data)
}

} // verus!
