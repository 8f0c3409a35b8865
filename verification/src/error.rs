//! The closed set of reasons for which an instruction is rejected.

use vstd::prelude::*;

verus! {

/// Why an instruction was rejected.  Every rejection is final: the
/// instruction as a whole has no effect.
#[derive(Clone, Copy, Debug, PartialEq, Eq, Structural)]
pub enum CasinoError {
    /// The instruction bytes do not decode, or a record the instruction
    /// needs is missing or unreadable.
    InvalidInstruction,
    /// A new record would be under-funded for its storage.
    NotRentExempt,
    /// The payout asked for exceeds what the stake and house edge allow.
    ExpectedAmountMismatch,
    /// The paying balance is lower than the amount to move.
    InsufficientFunds,
    /// The record to create is already there.
    GameAlreadyExists,
    /// There is no wager at the record given for settlement.
    GameNotFound,
    /// The wager has been settled before.
    GameAlreadySettled,
    /// A signature is missing, the signer is not the authority or not an
    /// operator, or the authority was to be removed from the operators.
    Unauthorized,
    /// The bet bounds are inverted, or a bet is zero or out of bounds.
    InvalidBetAmount,
    /// The house edge is above ten percent.
    InvalidHouseEdge,
    /// A computation left the range of 64-bit amounts.
    ArithmeticOverflow,
    /// A record's address is not the one derived for it.
    AddressMismatch,
}

impl CasinoError {
    /// The number under which the error crosses the host boundary.
    pub open spec fn spec_code(self) -> u32 {
        match self {
            CasinoError::InvalidInstruction => 0,
            CasinoError::NotRentExempt => 1,
            CasinoError::ExpectedAmountMismatch => 2,
            CasinoError::InsufficientFunds => 3,
            CasinoError::GameAlreadyExists => 4,
            CasinoError::GameNotFound => 5,
            CasinoError::GameAlreadySettled => 6,
            CasinoError::Unauthorized => 7,
            CasinoError::InvalidBetAmount => 8,
            CasinoError::InvalidHouseEdge => 9,
            CasinoError::ArithmeticOverflow => 10,
            CasinoError::AddressMismatch => 11,
        }
    }

    /// The number under which the error crosses the host boundary.
    #[verifier::when_used_as_spec(spec_code)]
    pub fn code(self) -> (c: u32)
        ensures
            c == self.spec_code(),
    {
        match self {
            CasinoError::InvalidInstruction => 0,
            CasinoError::NotRentExempt => 1,
            CasinoError::ExpectedAmountMismatch => 2,
            CasinoError::InsufficientFunds => 3,
            CasinoError::GameAlreadyExists => 4,
            CasinoError::GameNotFound => 5,
            CasinoError::GameAlreadySettled => 6,
            CasinoError::Unauthorized => 7,
            CasinoError::InvalidBetAmount => 8,
            CasinoError::InvalidHouseEdge => 9,
            CasinoError::ArithmeticOverflow => 10,
            CasinoError::AddressMismatch => 11,
        }
    }

    /// The text shown for the error.
    pub open spec fn spec_message(self) -> Seq<char> {
        match self {
            CasinoError::InvalidInstruction => "Invalid instruction"@,
            CasinoError::NotRentExempt => "Not rent exempt"@,
            CasinoError::ExpectedAmountMismatch => "Expected amount mismatch"@,
            CasinoError::InsufficientFunds => "Insufficient funds"@,
            CasinoError::GameAlreadyExists => "Game already exists"@,
            CasinoError::GameNotFound => "Game not found"@,
            CasinoError::GameAlreadySettled => "Game already settled"@,
            CasinoError::Unauthorized => "Unauthorized"@,
            CasinoError::InvalidBetAmount => "Invalid bet amount"@,
            CasinoError::InvalidHouseEdge => "Invalid house edge"@,
            CasinoError::ArithmeticOverflow => "Arithmetic overflow"@,
            CasinoError::AddressMismatch => "Address mismatch"@,
        }
    }

    /// The text shown for the error.
    pub fn message(self) -> (text: &'static str)
        ensures
            text@ == self.spec_message(),
    {
        match self {
            CasinoError::InvalidInstruction => "Invalid instruction",
            CasinoError::NotRentExempt => "Not rent exempt",
            CasinoError::ExpectedAmountMismatch => "Expected amount mismatch",
            CasinoError::InsufficientFunds => "Insufficient funds",
            CasinoError::GameAlreadyExists => "Game already exists",
            CasinoError::GameNotFound => "Game not found",
            CasinoError::GameAlreadySettled => "Game already settled",
            CasinoError::Unauthorized => "Unauthorized",
            CasinoError::InvalidBetAmount => "Invalid bet amount",
            CasinoError::InvalidHouseEdge => "Invalid house edge",
            CasinoError::ArithmeticOverflow => "Arithmetic overflow",
            CasinoError::AddressMismatch => "Address mismatch",
        }
    }
}

} // verus!
