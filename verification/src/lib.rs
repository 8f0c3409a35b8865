//! A wagering ledger's instruction engine.
//!
//! The engine takes one instruction together with the records it names,
//! validates it against the casino configuration and the wager it concerns,
//! and answers with the changes the host has to commit: at most one record
//! to create, one record to write and one transfer of value.  Nothing is
//! changed by the engine itself, so an instruction that is rejected leaves
//! no trace.

pub mod error;
pub mod address;
pub mod id;
pub mod wire;
pub mod payout;
pub mod casino;
pub mod validation;
pub mod game;
pub mod instruction;
pub mod processor;
pub mod client;
pub mod laws;

pub use crate::address::{Address, RecordKey};
pub use crate::casino::CasinoState;
pub use crate::error::CasinoError;
pub use crate::game::GameState;
pub use crate::instruction::CasinoInstruction;
pub use crate::processor::{process_instruction, Account, Commit, CreateRecord, Transfer, WriteRecord};
