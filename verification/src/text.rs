//! Checks on byte strings that only the standard library performs.

use vstd::prelude::*;

verus! {

/// Checks that the bytes are UTF-8, with `core::str::from_utf8`.
///
/// The claim is the one the standard library documents for that function: it succeeds exactly on well-formed
/// UTF-8, which vstd states as `valid_utf8`.
#[verifier::external_body]
pub(crate) fn is_utf8(bytes: &[u8]) -> (res: bool)
    ensures
        res == vstd::utf8::valid_utf8(bytes@),
{
    core::str::from_utf8(bytes).is_ok()
}

} // verus!
