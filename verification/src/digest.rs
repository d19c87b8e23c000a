//! Digests of file contents.

use crate::text::{eq_ignoring_case, same_ignoring_case};
use vstd::prelude::*;

verus! {

/// The MD5 digest of `data`, written in hexadecimal.
pub uninterp spec fn md5_hex(data: Seq<u8>) -> Seq<char>;

/// The MD5 digest of `data` in hexadecimal.
///
/// Calls `md5::compute` and formats the digest with `{:x}`. Not proved: that
/// the text is the digest of these bytes, which is taken as what `md5_hex`
/// means.
#[verifier::external_body]
pub(crate) fn md5_hex_of(data: &[u8]) -> (hex: String)
    ensures
        hex@ == md5_hex(data@),
{
    format!("{:x}", md5::compute(data))
}

/// Whether the digest that a manifest gives is the digest `local` of a file:
/// the two are compared as hexadecimal text, without regard to case.
pub fn same_digest(expected: &str, local: &str) -> (same: bool)
    ensures
        same == same_ignoring_case(expected@, local@),
{
    eq_ignoring_case(expected, local)
}

/// Whether `contents` has the digest that a manifest gives.
pub fn has_digest(contents: &[u8], expected: &str) -> (same: bool)
    ensures
        same == same_ignoring_case(expected@, md5_hex(contents@)),
{
    let local = md5_hex_of(contents);
    same_digest(expected, local.as_str())
}

} // verus!
