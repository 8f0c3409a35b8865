//! The handlers of the six instructions.
//!
//! A handler reads the records that come with its instruction, checks
//! everything there is to check, and only then says what is to change: a
//! [`Commit`].  The host applies a commit as a whole or not at all.

use crate::address::{derivation_view, derived_address, find_address, Address, RecordKey, ZERO};
use crate::casino::{CasinoModel, CasinoState};
use crate::error::CasinoError;
use crate::game::{GameState, GAME_LEN};
use crate::instruction::CasinoInstruction;
use crate::validation::{require_authority, require_operator, require_signer};
use vstd::prelude::*;

verus! {

/// A record as the host hands it over with an instruction.
#[derive(Debug)]
pub struct Account {
    /// The address of the record.
    pub key: Address,
    /// Whether the instruction carries this identity's signature.
    pub is_signer: bool,
    /// The value held under the record.
    pub lamports: u64,
    /// The bytes of the record.
    pub data: Vec<u8>,
    /// The program that owns the record.
    pub owner: Address,
}

impl Account {
    /// Whether nothing has been created at the address yet: the record
    /// holds no value and no bytes, and belongs to the storage allocator.
    pub open spec fn vacant(self) -> bool {
        self.lamports == 0 && self.data@.len() == 0 && self.owner == Address::zero()
    }

    /// Tells whether nothing has been created at the address yet.
    pub fn is_vacant(&self) -> (vacant: bool)
        ensures
            vacant == self.vacant(),
    {
        self.lamports == 0 && self.data.len() == 0 && self.owner == (Address { bytes: ZERO })
    }
}

/// A record for the host to create: sized to `space` bytes, funded by the
/// payer as the host's storage rule asks, owned by the program, and signed
/// for with the seeds of `key` and `bump`.
#[derive(Clone, Copy, Debug, PartialEq, Eq)]
pub struct CreateRecord {
    /// The place of the payer in the instruction's list of records.
    pub payer: usize,
    /// The place of the new record in that list.
    pub target: usize,
    /// The length of the new record in bytes.
    pub space: usize,
    /// What identifies the new record.
    pub key: RecordKey,
    /// The bump seed that goes with the record's address.
    pub bump: u8,
}

/// Bytes for the host to write as the whole content of a record.
#[derive(Debug)]
pub struct WriteRecord {
    /// The place of the record in the instruction's list of records.
    pub target: usize,
    /// The new content.
    pub data: Vec<u8>,
}

/// Value for the host to move from one record's balance to another's.
#[derive(Clone, Copy, Debug, PartialEq, Eq)]
pub struct Transfer {
    /// The place of the paying record in the instruction's list.
    pub source: usize,
    /// The place of the receiving record in that list.
    pub destination: usize,
    /// The amount to move.
    pub amount: u64,
}

/// What an accepted instruction changes.  The host creates, then writes,
/// then transfers.
#[derive(Debug)]
pub struct Commit {
    pub create: Option<CreateRecord>,
    pub write: Option<WriteRecord>,
    pub transfer: Option<Transfer>,
}

/// What a commit says.
pub struct CommitModel {
    pub create: Option<CreateRecord>,
    /// The place of the record to write, and its new content.
    pub write: Option<(usize, Seq<u8>)>,
    pub transfer: Option<Transfer>,
}

impl View for Commit {
    type V = CommitModel;

    open spec fn view(&self) -> CommitModel {
        CommitModel {
            create: self.create,
            write: match self.write {
                Some(write) => Some((write.target, write.data@)),
                None => None,
            },
            transfer: self.transfer,
        }
    }
}

impl CommitModel {
    /// The commit that changes nothing.
    pub open spec fn nothing() -> CommitModel {
        CommitModel { create: None, write: None, transfer: None }
    }

    /// The commit that writes `data` to the record at `target`, and
    /// changes nothing else.
    pub open spec fn writing(target: usize, data: Seq<u8>) -> CommitModel {
        CommitModel { create: None, write: Some((target, data)), transfer: None }
    }
}

/// A handler's answer, by what the commit says.
pub open spec fn outcome_view(outcome: Result<Commit, CasinoError>) -> Result<
    CommitModel,
    CasinoError,
> {
    match outcome {
        Ok(commit) => Ok(commit@),
        Err(error) => Err(error),
    }
}

/// What `UpdateParams` leads to.  The records are the authority and the
/// configuration.  The authority must have signed and be the one the
/// configuration names; the update itself must be admitted.
pub open spec fn update_params_outcome(
    accounts: Seq<Account>,
    house_edge: Option<u16>,
    min_bet: Option<u64>,
    max_bet: Option<u64>,
) -> Result<CommitModel, CasinoError> {
    let config = CasinoModel::decoded(accounts[1].data@);
    if accounts.len() < 2 {
        Err(CasinoError::InvalidInstruction)
    } else if !accounts[0].is_signer {
        Err(CasinoError::Unauthorized)
    } else if config is None {
        Err(CasinoError::InvalidInstruction)
    } else if accounts[0].key != config->Some_0.authority {
        Err(CasinoError::Unauthorized)
    } else {
        match config->Some_0.updated(house_edge, min_bet, max_bet) {
            Err(error) => Err(error),
            Ok(next) => Ok(CommitModel::writing(1, next.encoding())),
        }
    }
}

/// What `AddOperator` leads to.  The records are the authority, the
/// configuration and the operator.  Adding an operator that is listed
/// changes nothing.
pub open spec fn add_operator_outcome(accounts: Seq<Account>) -> Result<CommitModel, CasinoError> {
    let config = CasinoModel::decoded(accounts[1].data@);
    if accounts.len() < 3 {
        Err(CasinoError::InvalidInstruction)
    } else if !accounts[0].is_signer {
        Err(CasinoError::Unauthorized)
    } else if config is None {
        Err(CasinoError::InvalidInstruction)
    } else if accounts[0].key != config->Some_0.authority {
        Err(CasinoError::Unauthorized)
    } else if config->Some_0.is_operator(accounts[2].key) {
        Ok(CommitModel::nothing())
    } else if !config->Some_0.with_operator(accounts[2].key).encodable() {
        Err(CasinoError::ArithmeticOverflow)
    } else {
        Ok(CommitModel::writing(1, config->Some_0.with_operator(accounts[2].key).encoding()))
    }
}

/// What `RemoveOperator` leads to.  The records are the authority, the
/// configuration and the operator.  The authority cannot be removed;
/// removing an operator that is not listed changes nothing.
pub open spec fn remove_operator_outcome(accounts: Seq<Account>) -> Result<
    CommitModel,
    CasinoError,
> {
    let config = CasinoModel::decoded(accounts[1].data@);
    if accounts.len() < 3 {
        Err(CasinoError::InvalidInstruction)
    } else if !accounts[0].is_signer {
        Err(CasinoError::Unauthorized)
    } else if config is None {
        Err(CasinoError::InvalidInstruction)
    } else if accounts[0].key != config->Some_0.authority {
        Err(CasinoError::Unauthorized)
    } else {
        match config->Some_0.removed(accounts[2].key) {
            Err(error) => Err(error),
            Ok(next) => if config->Some_0.is_operator(accounts[2].key) {
                Ok(CommitModel::writing(1, next.encoding()))
            } else {
                Ok(CommitModel::nothing())
            },
        }
    }
}

/// Reads the configuration that the authority at the head of `accounts`
/// may change.
fn owned_config(accounts: &[Account]) -> (found: Result<CasinoState, CasinoError>)
    requires
        accounts@.len() >= 2,
    ensures
        match found {
            Ok(config) => accounts@[0].is_signer && CasinoModel::decoded(accounts@[1].data@)
                == Some(config@) && config@.authority == accounts@[0].key,
            Err(error) => {
                let config = CasinoModel::decoded(accounts@[1].data@);
                if !accounts@[0].is_signer {
                    error == CasinoError::Unauthorized
                } else if config is None {
                    error == CasinoError::InvalidInstruction
                } else {
                    error == CasinoError::Unauthorized && accounts@[0].key
                        != config->Some_0.authority
                }
            },
        },
{
    if let Err(error) = require_signer(accounts[0].is_signer) {
        return Err(error);
    }
    let config = match CasinoState::try_from_slice(accounts[1].data.as_slice()) {
        Ok(config) => config,
        Err(error) => {
            return Err(error);
        },
    };
    if let Err(error) = require_authority(&config, &accounts[0].key) {
        return Err(error);
    }
    Ok(config)
}

/// The commit that writes `config` to the record at `target`.
fn write_config(config: &CasinoState, target: usize) -> (outcome: Result<Commit, CasinoError>)
    ensures
        outcome_view(outcome) == if config@.encodable() {
            Ok::<CommitModel, CasinoError>(CommitModel::writing(target, config@.encoding()))
        } else {
            Err::<CommitModel, CasinoError>(CasinoError::ArithmeticOverflow)
        },
{
    match config.try_to_vec() {
        Ok(data) => Ok(
            Commit { create: None, write: Some(WriteRecord { target, data }), transfer: None },
        ),
        Err(error) => Err(error),
    }
}

/// Handles `UpdateParams`.
pub fn process_update_params(
    accounts: &[Account],
    house_edge: Option<u16>,
    min_bet: Option<u64>,
    max_bet: Option<u64>,
) -> (outcome: Result<Commit, CasinoError>)
    ensures
        outcome_view(outcome) == update_params_outcome(accounts@, house_edge, min_bet, max_bet),
{
    if accounts.len() < 2 {
        return Err(CasinoError::InvalidInstruction);
    }
    let mut config = match owned_config(accounts) {
        Ok(config) => config,
        Err(error) => {
            return Err(error);
        },
    };
    proof {
        config@.lemma_decoded(accounts@[1].data@);
    }
    if let Err(error) = config.update_params(house_edge, min_bet, max_bet) {
        return Err(error);
    }
    write_config(&config, 1)
}

/// Handles `AddOperator`.
pub fn process_add_operator(accounts: &[Account]) -> (outcome: Result<Commit, CasinoError>)
    ensures
        outcome_view(outcome) == add_operator_outcome(accounts@),
{
    if accounts.len() < 3 {
        return Err(CasinoError::InvalidInstruction);
    }
    let mut config = match owned_config(accounts) {
        Ok(config) => config,
        Err(error) => {
            return Err(error);
        },
    };
    if config.add_operator(accounts[2].key) {
        write_config(&config, 1)
    } else {
        Ok(Commit { create: None, write: None, transfer: None })
    }
}

/// Handles `RemoveOperator`.
pub fn process_remove_operator(accounts: &[Account]) -> (outcome: Result<Commit, CasinoError>)
    ensures
        outcome_view(outcome) == remove_operator_outcome(accounts@),
{
    if accounts.len() < 3 {
        return Err(CasinoError::InvalidInstruction);
    }
    let mut config = match owned_config(accounts) {
        Ok(config) => config,
        Err(error) => {
            return Err(error);
        },
    };
    proof {
        config@.lemma_decoded(accounts@[1].data@);
        crate::casino::lemma_others_members(config@.operators, accounts@[2].key);
    }
    match config.remove_operator(&accounts[2].key) {
        Err(error) => Err(error),
        Ok(changed) => if changed {
            write_config(&config, 1)
        } else {
            Ok(Commit { create: None, write: None, transfer: None })
        },
    }
}


/// What `SettleGame` leads to.  The records are the operator, the
/// configuration, the game, the player and the storage allocator.  The
/// operator must have signed and be listed; the wager must be there, open
/// and the player's; a win must be admitted, covered by the escrow and
/// within what the player's balance can take.  A win moves the payout from
/// the game record to the player; a loss moves nothing.
pub open spec fn settle_game_outcome(
    accounts: Seq<Account>,
    is_win: bool,
    win_amount: u64,
    result_hash: [u8; 32],
) -> Result<CommitModel, CasinoError> {
    let config = CasinoModel::decoded(accounts[1].data@);
    let game = GameState::decoded(accounts[2].data@);
    let payout = GameState::payout(is_win, win_amount);
    if accounts.len() < 5 {
        Err(CasinoError::InvalidInstruction)
    } else if !accounts[0].is_signer {
        Err(CasinoError::Unauthorized)
    } else if config is None {
        Err(CasinoError::InvalidInstruction)
    } else if !config->Some_0.is_operator(accounts[0].key) {
        Err(CasinoError::Unauthorized)
    } else if game is None {
        Err(CasinoError::GameNotFound)
    } else {
        match game->Some_0.settled(
            config->Some_0,
            accounts[3].key,
            is_win,
            win_amount,
            result_hash,
        ) {
            Err(error) => Err(error),
            Ok(next) => if accounts[2].lamports < payout {
                Err(CasinoError::InsufficientFunds)
            } else if accounts[3].lamports + payout > u64::MAX {
                Err(CasinoError::ArithmeticOverflow)
            } else {
                Ok(
                    CommitModel {
                        create: None,
                        write: Some((2, next.encoding())),
                        transfer: if is_win {
                            Some(Transfer { source: 2, destination: 3, amount: win_amount })
                        } else {
                            None
                        },
                    },
                )
            },
        }
    }
}

/// What `PlaceBet` leads to, given what the address derivation has found
/// for the wager.  The records are the player, the configuration, the
/// game and the storage allocator.  The player must have signed; the bet
/// must be admitted and covered; the game record must lie at the derived
/// address and be vacant.  The record is created open, and the stake
/// moves from the player to it.
pub open spec fn place_bet_outcome(
    accounts: Seq<Account>,
    derived: Option<(Seq<u8>, u8)>,
    game_id: [u8; 32],
    bet_amount: u64,
) -> Result<CommitModel, CasinoError> {
    let config = CasinoModel::decoded(accounts[1].data@);
    if accounts.len() < 4 {
        Err(CasinoError::InvalidInstruction)
    } else if !accounts[0].is_signer {
        Err(CasinoError::Unauthorized)
    } else if config is None {
        Err(CasinoError::InvalidInstruction)
    } else {
        match GameState::placed(config->Some_0, accounts[0].key, bet_amount, accounts[0].lamports) {
            Err(error) => Err(error),
            Ok(game) => if derived is None || derived->Some_0.0 != accounts[2].key@ {
                Err(CasinoError::AddressMismatch)
            } else if !accounts[2].vacant() {
                Err(CasinoError::GameAlreadyExists)
            } else {
                Ok(
                    CommitModel {
                        create: Some(
                            CreateRecord {
                                payer: 0,
                                target: 2,
                                space: GAME_LEN,
                                key: RecordKey::Game { game_id },
                                bump: derived->Some_0.1,
                            },
                        ),
                        write: Some((2, game.encoding())),
                        transfer: Some(Transfer { source: 0, destination: 2, amount: bet_amount }),
                    },
                )
            },
        }
    }
}

/// What `Initialize` leads to, given what the address derivation has
/// found for the authority.  The records are the authority, the
/// configuration and the storage allocator.  The authority must have
/// signed; the parameters must be admitted; the configuration record
/// must lie at the derived address and be vacant.
pub open spec fn initialize_outcome(
    accounts: Seq<Account>,
    derived: Option<(Seq<u8>, u8)>,
    house_edge: u16,
    min_bet: u64,
    max_bet: u64,
) -> Result<CommitModel, CasinoError> {
    if accounts.len() < 3 {
        Err(CasinoError::InvalidInstruction)
    } else if !accounts[0].is_signer {
        Err(CasinoError::Unauthorized)
    } else {
        match CasinoModel::initial(accounts[0].key, house_edge, min_bet, max_bet) {
            Err(error) => Err(error),
            Ok(config) => if derived is None || derived->Some_0.0 != accounts[1].key@ {
                Err(CasinoError::AddressMismatch)
            } else if !accounts[1].vacant() {
                Err(CasinoError::GameAlreadyExists)
            } else {
                Ok(
                    CommitModel {
                        create: Some(
                            CreateRecord {
                                payer: 0,
                                target: 1,
                                space: config.encoding().len() as usize,
                                key: RecordKey::Casino { authority: accounts[0].key },
                                bump: derived->Some_0.1,
                            },
                        ),
                        write: Some((1, config.encoding())),
                        transfer: None,
                    },
                )
            },
        }
    }
}

/// What an instruction leads to: what its kind leads to, once its bytes
/// are read.  The addresses of new records are derived under `program_id`.
pub open spec fn instruction_outcome(program_id: Address, accounts: Seq<Account>, data: Seq<u8>) -> Result<
    CommitModel,
    CasinoError,
> {
    match CasinoInstruction::decoded(data) {
        None => Err(CasinoError::InvalidInstruction),
        Some(CasinoInstruction::Initialize { house_edge, min_bet, max_bet }) => initialize_outcome(
            accounts,
            derived_address(
                (RecordKey::Casino { authority: accounts[0].key }).spec_seeds(),
                program_id@,
            ),
            house_edge,
            min_bet,
            max_bet,
        ),
        Some(CasinoInstruction::PlaceBet { game_id, bet_amount }) => place_bet_outcome(
            accounts,
            derived_address((RecordKey::Game { game_id }).spec_seeds(), program_id@),
            game_id,
            bet_amount,
        ),
        Some(CasinoInstruction::SettleGame { is_win, win_amount, result_hash }) => {
            settle_game_outcome(accounts, is_win, win_amount, result_hash)
        },
        Some(CasinoInstruction::UpdateParams { house_edge, min_bet, max_bet }) => {
            update_params_outcome(accounts, house_edge, min_bet, max_bet)
        },
        Some(CasinoInstruction::AddOperator) => add_operator_outcome(accounts),
        Some(CasinoInstruction::RemoveOperator) => remove_operator_outcome(accounts),
    }
}

/// Handles `SettleGame`.
pub fn process_settle_game(
    accounts: &[Account],
    is_win: bool,
    win_amount: u64,
    result_hash: [u8; 32],
) -> (outcome: Result<Commit, CasinoError>)
    ensures
        outcome_view(outcome) == settle_game_outcome(accounts@, is_win, win_amount, result_hash),
{
    if accounts.len() < 5 {
        return Err(CasinoError::InvalidInstruction);
    }
    if let Err(error) = require_signer(accounts[0].is_signer) {
        return Err(error);
    }
    let config = match CasinoState::try_from_slice(accounts[1].data.as_slice()) {
        Ok(config) => config,
        Err(error) => {
            return Err(error);
        },
    };
    if let Err(error) = require_operator(&config, &accounts[0].key) {
        return Err(error);
    }
    let mut game = match GameState::try_from_slice(accounts[2].data.as_slice()) {
        Ok(game) => game,
        Err(error) => {
            return Err(error);
        },
    };
    if let Err(error) = game.settle(&config, &accounts[3].key, is_win, win_amount, result_hash) {
        return Err(error);
    }
    let transfer = if is_win {
        if accounts[2].lamports < win_amount {
            return Err(CasinoError::InsufficientFunds);
        }
        if accounts[3].lamports.checked_add(win_amount).is_none() {
            return Err(CasinoError::ArithmeticOverflow);
        }
        Some(Transfer { source: 2, destination: 3, amount: win_amount })
    } else {
        None
    };
    match game.try_to_vec() {
        Ok(data) => Ok(Commit { create: None, write: Some(WriteRecord { target: 2, data }), transfer }),
        Err(error) => Err(error),
    }
}

/// Handles `PlaceBet`, given what the address derivation has found for
/// the wager.
pub fn place_bet_at(
    accounts: &[Account],
    derived: Option<(Address, u8)>,
    game_id: [u8; 32],
    bet_amount: u64,
) -> (outcome: Result<Commit, CasinoError>)
    ensures
        outcome_view(outcome) == place_bet_outcome(
            accounts@,
            derivation_view(derived),
            game_id,
            bet_amount,
        ),
{
    if accounts.len() < 4 {
        return Err(CasinoError::InvalidInstruction);
    }
    if let Err(error) = require_signer(accounts[0].is_signer) {
        return Err(error);
    }
    let config = match CasinoState::try_from_slice(accounts[1].data.as_slice()) {
        Ok(config) => config,
        Err(error) => {
            return Err(error);
        },
    };
    let game = match GameState::place(&config, accounts[0].key, bet_amount, accounts[0].lamports) {
        Ok(game) => game,
        Err(error) => {
            return Err(error);
        },
    };
    let bump: u8 = match derived {
        Some((address, bump)) => {
            proof {
                address.lemma_same_view(accounts@[2].key);
            }
            if address != accounts[2].key {
                return Err(CasinoError::AddressMismatch);
            }
            bump
        },
        None => {
            return Err(CasinoError::AddressMismatch);
        },
    };
    if !accounts[2].is_vacant() {
        return Err(CasinoError::GameAlreadyExists);
    }
    proof {
        game.lemma_encoding_layout();
    }
    match game.try_to_vec() {
        Ok(data) => Ok(
            Commit {
                create: Some(
                    CreateRecord {
                        payer: 0,
                        target: 2,
                        space: data.len(),
                        key: RecordKey::Game { game_id },
                        bump,
                    },
                ),
                write: Some(WriteRecord { target: 2, data }),
                transfer: Some(Transfer { source: 0, destination: 2, amount: bet_amount }),
            },
        ),
        Err(error) => Err(error),
    }
}

/// Handles `PlaceBet`: derives the address of the wager's record under
/// `program_id` and goes on as [`place_bet_at`] says.
pub fn process_place_bet(
    program_id: &Address,
    accounts: &[Account],
    game_id: [u8; 32],
    bet_amount: u64,
) -> (outcome: Result<Commit, CasinoError>)
    ensures
        outcome_view(outcome) == place_bet_outcome(
            accounts@,
            derived_address((RecordKey::Game { game_id }).spec_seeds(), program_id@),
            game_id,
            bet_amount,
        ),
{
    let derived = find_address(&RecordKey::Game { game_id }, program_id);
    place_bet_at(accounts, derived, game_id, bet_amount)
}

/// Handles `Initialize`, given what the address derivation has found for
/// the authority.
pub fn initialize_at(
    accounts: &[Account],
    derived: Option<(Address, u8)>,
    house_edge: u16,
    min_bet: u64,
    max_bet: u64,
) -> (outcome: Result<Commit, CasinoError>)
    ensures
        outcome_view(outcome) == initialize_outcome(
            accounts@,
            derivation_view(derived),
            house_edge,
            min_bet,
            max_bet,
        ),
{
    if accounts.len() < 3 {
        return Err(CasinoError::InvalidInstruction);
    }
    if let Err(error) = require_signer(accounts[0].is_signer) {
        return Err(error);
    }
    let config = match CasinoState::new(accounts[0].key, house_edge, min_bet, max_bet) {
        Ok(config) => config,
        Err(error) => {
            return Err(error);
        },
    };
    let bump: u8 = match derived {
        Some((address, bump)) => {
            proof {
                address.lemma_same_view(accounts@[1].key);
            }
            if address != accounts[1].key {
                return Err(CasinoError::AddressMismatch);
            }
            bump
        },
        None => {
            return Err(CasinoError::AddressMismatch);
        },
    };
    if !accounts[1].is_vacant() {
        return Err(CasinoError::GameAlreadyExists);
    }
    match config.try_to_vec() {
        Ok(data) => Ok(
            Commit {
                create: Some(
                    CreateRecord {
                        payer: 0,
                        target: 1,
                        space: data.len(),
                        key: RecordKey::Casino { authority: accounts[0].key },
                        bump,
                    },
                ),
                write: Some(WriteRecord { target: 1, data }),
                transfer: None,
            },
        ),
        Err(error) => Err(error),
    }
}

/// Handles `Initialize`: derives the address of the authority's
/// configuration record under `program_id` and goes on as
/// [`initialize_at`] says.
pub fn process_initialize(
    program_id: &Address,
    accounts: &[Account],
    house_edge: u16,
    min_bet: u64,
    max_bet: u64,
) -> (outcome: Result<Commit, CasinoError>)
    ensures
        outcome_view(outcome) == initialize_outcome(
            accounts@,
            derived_address(
                (RecordKey::Casino { authority: accounts@[0].key }).spec_seeds(),
                program_id@,
            ),
            house_edge,
            min_bet,
            max_bet,
        ),
{
    if accounts.len() < 3 {
        return Err(CasinoError::InvalidInstruction);
    }
    let derived = find_address(&RecordKey::Casino { authority: accounts[0].key }, program_id);
    initialize_at(accounts, derived, house_edge, min_bet, max_bet)
}

/// Reads an instruction and hands it to the handler of its kind.
pub fn process_instruction(program_id: &Address, accounts: &[Account], instruction_data: &[u8]) -> (outcome:
    Result<Commit, CasinoError>)
    ensures
        outcome_view(outcome) == instruction_outcome(*program_id, accounts@, instruction_data@),
{
    let instruction = match CasinoInstruction::try_from_slice(instruction_data) {
        Ok(instruction) => instruction,
        Err(error) => {
            return Err(error);
        },
    };
    match instruction {
        CasinoInstruction::Initialize { house_edge, min_bet, max_bet } => process_initialize(
            program_id,
            accounts,
            house_edge,
            min_bet,
            max_bet,
        ),
        CasinoInstruction::PlaceBet { game_id, bet_amount } => process_place_bet(
            program_id,
            accounts,
            game_id,
            bet_amount,
        ),
        CasinoInstruction::SettleGame { is_win, win_amount, result_hash } => process_settle_game(
            accounts,
            is_win,
            win_amount,
            result_hash,
        ),
        CasinoInstruction::UpdateParams { house_edge, min_bet, max_bet } => process_update_params(
            accounts,
            house_edge,
            min_bet,
            max_bet,
        ),
        CasinoInstruction::AddOperator => process_add_operator(accounts),
        CasinoInstruction::RemoveOperator => process_remove_operator(accounts),
    }
}

} // verus!
