//! The integer decisions of a drain: whether an absolute drain fits the
//! vector, and what a drain leaves behind.
use vstd::prelude::*;

use crate::error::AuthxError;

verus! {

/// What an absolute drain of a vector amounts to.
#[derive(Debug, Clone, Copy, PartialEq, Eq, Structural)]
pub enum AbsoluteDrain {
    /// A drain of zero: nothing is removed.
    Nothing,
    /// A drain within the magnitude.
    Within,
}

/// The message of an absolute drain larger than the vector.
pub open spec fn exceeds_message() -> Seq<char> {
    "absolute drain exceeds magnitude"@
}

/// Checks an absolute drain of `amount` against a vector of `magnitude`:
/// zero removes nothing, more than the magnitude is refused.
pub fn check_absolute_drain(amount: u128, magnitude: u128) -> (r: Result<AbsoluteDrain, AuthxError>)
    ensures
        r matches Ok(AbsoluteDrain::Nothing) <==> amount == 0,
        r matches Ok(AbsoluteDrain::Within) <==> 0 < amount <= magnitude,
        r is Err <==> amount > magnitude && amount != 0,
        r matches Err(e) ==> e matches AuthxError::ErrInvalidDrain(m) && m@ == exceeds_message(),
{
    if amount == 0 {
        return Ok(AbsoluteDrain::Nothing);
    }
    if amount > magnitude {
        return Err(AuthxError::ErrInvalidDrain("absolute drain exceeds magnitude".to_owned()));
    }
    Ok(AbsoluteDrain::Within)
}

/// What remains of `magnitude` once `removed` is taken off; never below zero.
pub fn retained_amount(magnitude: u128, removed: u128) -> (r: u128)
    ensures
        r == if removed > magnitude {
            0
        } else {
            magnitude - removed
        },
        r <= magnitude,
{
    magnitude.saturating_sub(removed)
}

} // verus!
