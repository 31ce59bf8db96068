//! Conversions between index types, made by the `num` crate.
use num::ToPrimitive;
use vstd::prelude::*;

verus! {

/// `ToPrimitive::to_isize` of `num` on a `usize`. It gives the same number
/// as an `isize`, and `None` where the number is above `isize::MAX`.
#[verifier::external_body]
pub(crate) fn signed_index(n: usize) -> (r: Option<isize>)
    ensures
        match r {
            Some(v) => n <= isize::MAX && v == n,
            None => n > isize::MAX,
        },
{
    n.to_isize()
}

/// `ToPrimitive::to_usize` of `num` on an `isize`. It gives the same number
/// as a `usize`, and `None` where the number is negative.
#[verifier::external_body]
pub(crate) fn unsigned_index(n: isize) -> (r: Option<usize>)
    ensures
        match r {
            Some(v) => 0 <= n && v == n,
            None => n < 0,
        },
{
    n.to_usize()
}

} // verus!
