//! Fee ceiling from a block's base fee.
use vstd::prelude::*;

verus! {

/// Why no fee ceiling could be computed.
#[derive(Debug, Clone, Copy, PartialEq, Eq, Structural)]
pub enum FeeError {
    /// The base fee is zero: the chain has not produced a usable block yet.
    InvalidInput,
    /// The ceiling does not fit in 128 bits.
    Overflow,
}

/// The fee ceiling for `base_fee` and `multiplier`, or why there is none.
pub open spec fn max_fee_spec(base_fee: u128, multiplier: u32) -> Result<u128, FeeError> {
    if base_fee == 0 {
        Err(FeeError::InvalidInput)
    } else if base_fee * multiplier > u128::MAX {
        Err(FeeError::Overflow)
    } else {
        Ok((base_fee * multiplier) as u128)
    }
}

/// Computes `base_fee * multiplier`, the most that a transaction may pay per unit of gas.
pub fn estimate_max_fee(base_fee: u128, multiplier: u32) -> (r: Result<u128, FeeError>)
    ensures
        r == max_fee_spec(base_fee, multiplier),
{
    if base_fee == 0 {
        return Err(FeeError::InvalidInput);
    }
    match base_fee.checked_mul(multiplier as u128) {
        Some(fee) => Ok(fee),
        None => Err(FeeError::Overflow),
    }
}

/// A zero base fee is refused whatever the multiplier.
pub proof fn lemma_zero_base_fee_refused(multiplier: u32)
    ensures
        max_fee_spec(0, multiplier) == Err::<u128, FeeError>(FeeError::InvalidInput),
{
}

/// For a positive base fee and multiplier whose product fits in 128 bits, the
/// ceiling is exactly their product.
pub proof fn lemma_fee_is_product(base_fee: u128, multiplier: u32)
    requires
        base_fee > 0,
        multiplier > 0,
        base_fee * multiplier <= u128::MAX,
    ensures
        max_fee_spec(base_fee, multiplier) == Ok::<u128, FeeError>((base_fee * multiplier) as u128),
{
}

} // verus!
