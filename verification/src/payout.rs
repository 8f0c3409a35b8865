//! The highest payout a wager admits.

use crate::error::CasinoError;
use vstd::prelude::*;

verus! {

/// The number of basis points in the whole: 10000 stand for 100 percent.
pub const BASIS_POINTS: u64 = 10000;

/// The highest house edge a configuration may carry, in basis points.
pub const MAX_HOUSE_EDGE: u16 = 1000;

/// The highest payout for a stake under a house edge: the stake times
/// 10000, divided by 10000 less the edge, rounded down.  There is none
/// where the product leaves the range of 64 bits, nor where the edge
/// leaves nothing to divide by.
pub open spec fn max_payout_spec(bet_amount: u64, house_edge: u16) -> Result<u64, CasinoError> {
    if bet_amount * BASIS_POINTS > u64::MAX {
        Err(CasinoError::ArithmeticOverflow)
    } else if house_edge >= BASIS_POINTS {
        Err(CasinoError::InvalidHouseEdge)
    } else {
        Ok(((bet_amount * BASIS_POINTS) / (BASIS_POINTS - house_edge)) as u64)
    }
}

/// Computes the highest payout for a stake of `bet_amount` under a house
/// edge of `house_edge` basis points.
pub fn max_payout(bet_amount: u64, house_edge: u16) -> (bound: Result<u64, CasinoError>)
    ensures
        bound == max_payout_spec(bet_amount, house_edge),
{
    let scaled: u64 = match bet_amount.checked_mul(BASIS_POINTS) {
        Some(scaled) => scaled,
        None => {
            return Err(CasinoError::ArithmeticOverflow);
        },
    };
    let edge: u64 = house_edge as u64;
    if edge >= BASIS_POINTS {
        return Err(CasinoError::InvalidHouseEdge);
    }
    let share: u64 = BASIS_POINTS - edge;
    proof {
        lemma_quotient_bounds(scaled as int, share as int);
    }
    Ok(scaled / share)
}

/// A quotient by a positive number lies between zero and the dividend, and
/// is the greatest number whose product with the divisor stays within the
/// dividend.
pub proof fn lemma_quotient_bounds(dividend: int, divisor: int)
    requires
        0 <= dividend,
        0 < divisor,
    ensures
        0 <= dividend / divisor <= dividend,
        (dividend / divisor) * divisor <= dividend < (dividend / divisor + 1) * divisor,
{
    vstd::arithmetic::div_mod::lemma_fundamental_div_mod(dividend, divisor);
    vstd::arithmetic::div_mod::lemma_mod_bound(dividend, divisor);
    let q = dividend / divisor;
    assert(0 <= q <= dividend && q * divisor <= dividend < (q + 1) * divisor) by (nonlinear_arith)
        requires
            dividend == divisor * q + dividend % divisor,
            0 <= dividend % divisor < divisor,
            0 <= dividend,
            0 < divisor,
    ;
}

} // verus!
