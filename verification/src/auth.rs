//! Pre-shared-key comparison.
//!
//! The transport layer authenticates requests by comparing a presented key
//! against the configured one; the comparison must not leak where the
//! strings diverge through its timing.

use vstd::prelude::*;
use subtle::ConstantTimeEq;

verus! {

/// Whether the two keys hold the same characters, compared in constant
/// time over their UTF-8 bytes to mitigate timing attacks.
///
/// Relies on subtle's `ConstantTimeEq::ct_eq` for byte slices, which yields
/// true exactly when the slices have equal length and equal contents, and on
/// UTF-8 encoding being injective, so byte equality of `str::as_bytes`
/// coincides with character equality.
#[verifier::external_body]
pub fn constant_time_compare(a: &str, b: &str) -> (r: bool)
    ensures
        r == (a@ == b@),
{
    a.as_bytes().ct_eq(b.as_bytes()).into()
}

} // verus!
