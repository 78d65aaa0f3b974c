//! Small helpers on strings.

use vstd::prelude::*;

verus! {

/// Equality of two string slices, as `str`'s own `==` decides it (std's
/// `PartialEq::eq` for `str`): true exactly when both hold the same characters.
#[verifier::external_body]
pub(crate) fn str_eq(a: &str, b: &str) -> (same: bool)
    ensures
        same == (a@ == b@),
{
    a == b
}

} // verus!
