//! Checksums: SHA-1 digests of files, written in lower-case hexadecimal, as Mojang lists them.

use vstd::prelude::*;
use sha1::Digest;

verus! {

/// The lower-case hexadecimal digit of `d`, which is below sixteen.
pub open spec fn hex_digit(d: u8) -> char {
    if d < 10 {
        ((48 + d) as u8) as char
    } else {
        ((87 + d) as u8) as char
    }
}

/// A byte as two lower-case hexadecimal digits, the high one first.
pub open spec fn hex_byte(b: u8) -> Seq<char> {
    seq![hex_digit(b / 16), hex_digit(b % 16)]
}

/// Bytes in lower-case hexadecimal.
pub open spec fn hex_spec(bytes: Seq<u8>) -> Seq<char>
    decreases bytes.len(),
{
    if bytes.len() == 0 {
        Seq::empty()
    } else {
        hex_spec(bytes.drop_last()) + hex_byte(bytes.last())
    }
}

/// Trusted: `base16ct::lower::encode_string`, which writes each byte as two lower-case
/// hexadecimal digits, the high nibble first, as its source shows. It panics on more than
/// `usize::MAX / 2` bytes, which the `requires` leaves out.
#[verifier::external_body]
fn hex_lower(bytes: &[u8]) -> (r: String)
    requires
        bytes@.len() <= usize::MAX / 2,
    ensures
        r@ == hex_spec(bytes@),
{
    base16ct::lower::encode_string(bytes)
}

/// The SHA-1 digest of `data`.
pub uninterp spec fn sha1_digest(data: Seq<u8>) -> Seq<u8>;

/// Trusted: `sha1::Sha1::digest`, whose twenty bytes the result is; which bytes SHA-1 gives is
/// named, not stated.
#[verifier::external_body]
fn sha1_of(data: &[u8]) -> (r: [u8; 20])
    ensures
        r@ == sha1_digest(data@),
{
    sha1::Sha1::digest(data).into()
}

/// The SHA-1 of `data` in lower-case hexadecimal, as the launcher compares it with the
/// checksums of profiles.
pub fn sha1_hex(data: &[u8]) -> (r: String)
    ensures
        r@ == hex_spec(sha1_digest(data@)),
{
    let digest = sha1_of(data);
    hex_lower(digest.as_slice())
}

/// Whether a file must be fetched: it is missing, or a checksum is known and the file's differs.
pub open spec fn requires_download_spec(present: bool, local_sha1: Option<Seq<char>>, remote_sha1: Option<Seq<char>>) -> bool {
    !present || (local_sha1 is Some && remote_sha1 is Some && local_sha1->0 != remote_sha1->0)
}

/// The texts of an optional string.
pub open spec fn opt_view(s: Option<String>) -> Option<Seq<char>> {
    match s {
        Some(t) => Some(t@),
        None => None,
    }
}

/// Whether a file must be fetched, by whether it exists, its checksum and the one expected.
pub fn requires_download(present: bool, local_sha1: &Option<String>, remote_sha1: &Option<String>) -> (r: bool)
    ensures
        r == requires_download_spec(present, opt_view(*local_sha1), opt_view(*remote_sha1)),
{
    if !present {
        return true;
    }
    match (local_sha1, remote_sha1) {
        (Some(local), Some(remote)) => {
            !crate::utils::text::str_eq(local.as_str(), remote.as_str())
        },
        _ => false,
    }
}

/// Whether a file with checksum `hash` is the one expected: a library without a known
/// checksum is taken as it is.
pub fn matches_expected(hash: &String, expected: &Option<String>) -> (r: bool)
    ensures
        r == match expected {
            Some(e) => e@ == hash@,
            None => true,
        },
{
    match expected {
        Some(e) => crate::utils::text::str_eq(e.as_str(), hash.as_str()),
        None => true,
    }
}

} // verus!
