//! The checks that every handler draws on: who signed, who may act, and
//! which parameters and bets are admitted.

use crate::address::Address;
use crate::casino::CasinoState;
use crate::error::CasinoError;
use crate::payout::MAX_HOUSE_EDGE;
use vstd::prelude::*;

verus! {

/// The outcome of a check: `error` unless `holds`.
pub open spec fn checked(holds: bool, error: CasinoError) -> Result<(), CasinoError> {
    if holds {
        Ok(())
    } else {
        Err(error)
    }
}

/// Whether a bet is admitted: it is not zero and lies within the bounds.
pub open spec fn bet_admitted(amount: u64, min_bet: u64, max_bet: u64) -> bool {
    amount != 0 && min_bet <= amount <= max_bet
}

/// Rejects an instruction that the identity in question has not signed.
/// `is_signer` is the host's word on the signature.
pub fn require_signer(is_signer: bool) -> (outcome: Result<(), CasinoError>)
    ensures
        outcome == checked(is_signer, CasinoError::Unauthorized),
{
    if is_signer {
        Ok(())
    } else {
        Err(CasinoError::Unauthorized)
    }
}

/// Rejects an identity that is not the casino's authority.
pub fn require_authority(config: &CasinoState, identity: &Address) -> (outcome: Result<
    (),
    CasinoError,
>)
    ensures
        outcome == checked(*identity == config@.authority, CasinoError::Unauthorized),
{
    if *identity == config.authority {
        Ok(())
    } else {
        Err(CasinoError::Unauthorized)
    }
}

/// Rejects an identity that is not among the casino's operators.
pub fn require_operator(config: &CasinoState, identity: &Address) -> (outcome: Result<
    (),
    CasinoError,
>)
    ensures
        outcome == checked(config@.is_operator(*identity), CasinoError::Unauthorized),
{
    if config.is_operator(identity) {
        Ok(())
    } else {
        Err(CasinoError::Unauthorized)
    }
}

/// Rejects a house edge above ten percent.
pub fn validate_house_edge(house_edge: u16) -> (outcome: Result<(), CasinoError>)
    ensures
        outcome == checked(house_edge <= MAX_HOUSE_EDGE, CasinoError::InvalidHouseEdge),
{
    if house_edge > MAX_HOUSE_EDGE {
        Err(CasinoError::InvalidHouseEdge)
    } else {
        Ok(())
    }
}

/// Rejects bet bounds of which the lower lies above the upper.
pub fn validate_bet_bounds(min_bet: u64, max_bet: u64) -> (outcome: Result<(), CasinoError>)
    ensures
        outcome == checked(min_bet <= max_bet, CasinoError::InvalidBetAmount),
{
    if min_bet > max_bet {
        Err(CasinoError::InvalidBetAmount)
    } else {
        Ok(())
    }
}

/// Rejects a bet of nothing and a bet outside the bounds.
pub fn validate_bet_amount(amount: u64, min_bet: u64, max_bet: u64) -> (outcome: Result<
    (),
    CasinoError,
>)
    ensures
        outcome == checked(bet_admitted(amount, min_bet, max_bet), CasinoError::InvalidBetAmount),
{
    if amount == 0 || amount < min_bet || amount > max_bet {
        Err(CasinoError::InvalidBetAmount)
    } else {
        Ok(())
    }
}

} // verus!
