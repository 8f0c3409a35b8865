//! Building instructions for the engine: the bytes of the instruction and
//! the records it asks for, each in its place.

use crate::address::{derivation_view, derived_address, find_address, Address, RecordKey, ZERO};
use crate::id::{id, spec_id};
use crate::instruction::CasinoInstruction;
use vstd::prelude::*;

verus! {

/// One record that an instruction asks for.
#[derive(Clone, Copy, Debug, PartialEq, Eq)]
pub struct AccountMeta {
    /// The address of the record.
    pub pubkey: Address,
    /// Whether this identity has to sign.
    pub is_signer: bool,
    /// Whether the instruction may change the record.
    pub is_writable: bool,
}

impl AccountMeta {
    /// A record that the instruction may change.
    pub open spec fn writable(pubkey: Address, is_signer: bool) -> AccountMeta {
        AccountMeta { pubkey, is_signer, is_writable: true }
    }

    /// A record that the instruction only reads.
    pub open spec fn readonly(pubkey: Address, is_signer: bool) -> AccountMeta {
        AccountMeta { pubkey, is_signer, is_writable: false }
    }

    /// Asks for a record that the instruction may change.
    pub fn new(pubkey: Address, is_signer: bool) -> (meta: AccountMeta)
        ensures
            meta == AccountMeta::writable(pubkey, is_signer),
    {
        AccountMeta { pubkey, is_signer, is_writable: true }
    }

    /// Asks for a record that the instruction only reads.
    pub fn new_readonly(pubkey: Address, is_signer: bool) -> (meta: AccountMeta)
        ensures
            meta == AccountMeta::readonly(pubkey, is_signer),
    {
        AccountMeta { pubkey, is_signer, is_writable: false }
    }
}

/// An instruction as it is handed to the host: the program it is for,
/// the records it asks for and its bytes.
#[derive(Debug)]
pub struct Instruction {
    pub program_id: Address,
    pub accounts: Vec<AccountMeta>,
    pub data: Vec<u8>,
}

/// What an instruction for the host says.
pub struct InstructionModel {
    pub program_id: Address,
    pub accounts: Seq<AccountMeta>,
    pub data: Seq<u8>,
}

impl View for Instruction {
    type V = InstructionModel;

    open spec fn view(&self) -> InstructionModel {
        InstructionModel {
            program_id: self.program_id,
            accounts: self.accounts@,
            data: self.data@,
        }
    }
}

/// The instruction for this program that carries `instruction` and asks
/// for `accounts`.
pub open spec fn request(instruction: CasinoInstruction, accounts: Seq<AccountMeta>) -> InstructionModel {
    InstructionModel { program_id: spec_id(), accounts, data: instruction.encoding() }
}

/// Puts `instruction` and the records it asks for together.
fn build(instruction: CasinoInstruction, accounts: Vec<AccountMeta>) -> (built: Instruction)
    ensures
        built@ == request(instruction, accounts@),
        CasinoInstruction::decoded(built@.data) == Some(instruction),
{
    proof {
        instruction.lemma_decoded(instruction.encoding());
    }
    let data: Vec<u8> = match instruction.try_to_vec() {
        Ok(data) => data,
        Err(_) => Vec::new(),
    };
    Instruction { program_id: id(), accounts, data }
}

/// Builds the instruction that creates the configuration record of
/// `authority` at `casino_state`.
pub fn initialize(
    authority: &Address,
    casino_state: &Address,
    house_edge: u16,
    min_bet: u64,
    max_bet: u64,
) -> (built: Instruction)
    ensures
        built@ == request(
            (CasinoInstruction::Initialize { house_edge, min_bet, max_bet }),
            seq![
                AccountMeta::writable(*authority, true),
                AccountMeta::writable(*casino_state, false),
                AccountMeta::readonly(Address::zero(), false),
            ],
        ),
        CasinoInstruction::decoded(built@.data) == Some(
            (CasinoInstruction::Initialize { house_edge, min_bet, max_bet }),
        ),
{
    let mut accounts: Vec<AccountMeta> = Vec::new();
    accounts.push(AccountMeta::new(*authority, true));
    accounts.push(AccountMeta::new(*casino_state, false));
    accounts.push(AccountMeta::new_readonly(Address { bytes: ZERO }, false));
    proof {
        assert(accounts@ =~= seq![
            AccountMeta::writable(*authority, true),
            AccountMeta::writable(*casino_state, false),
            AccountMeta::readonly(Address::zero(), false),
        ]);
    }
    build(CasinoInstruction::Initialize { house_edge, min_bet, max_bet }, accounts)
}

/// Builds the instruction by which `player` places a bet on the wager
/// `game_id`, whose record lies at `game_account`.
pub fn place_bet(
    player: &Address,
    casino_state: &Address,
    game_account: &Address,
    game_id: [u8; 32],
    bet_amount: u64,
) -> (built: Instruction)
    ensures
        built@ == request(
            (CasinoInstruction::PlaceBet { game_id, bet_amount }),
            seq![
                AccountMeta::writable(*player, true),
                AccountMeta::readonly(*casino_state, false),
                AccountMeta::writable(*game_account, false),
                AccountMeta::readonly(Address::zero(), false),
            ],
        ),
        CasinoInstruction::decoded(built@.data) == Some(
            (CasinoInstruction::PlaceBet { game_id, bet_amount }),
        ),
{
    let mut accounts: Vec<AccountMeta> = Vec::new();
    accounts.push(AccountMeta::new(*player, true));
    accounts.push(AccountMeta::new_readonly(*casino_state, false));
    accounts.push(AccountMeta::new(*game_account, false));
    accounts.push(AccountMeta::new_readonly(Address { bytes: ZERO }, false));
    proof {
        assert(accounts@ =~= seq![
            AccountMeta::writable(*player, true),
            AccountMeta::readonly(*casino_state, false),
            AccountMeta::writable(*game_account, false),
            AccountMeta::readonly(Address::zero(), false),
        ]);
    }
    build(CasinoInstruction::PlaceBet { game_id, bet_amount }, accounts)
}

/// Builds the instruction by which the operator `authority` settles the
/// wager at `game_account` for `player`.  The operator signs and is only
/// read; the game record and the player may change.
pub fn settle_game(
    authority: &Address,
    casino_state: &Address,
    game_account: &Address,
    player: &Address,
    is_win: bool,
    win_amount: u64,
    result_hash: [u8; 32],
) -> (built: Instruction)
    ensures
        built@ == request(
            (CasinoInstruction::SettleGame { is_win, win_amount, result_hash }),
            seq![
                AccountMeta::readonly(*authority, true),
                AccountMeta::readonly(*casino_state, false),
                AccountMeta::writable(*game_account, false),
                AccountMeta::writable(*player, false),
                AccountMeta::readonly(Address::zero(), false),
            ],
        ),
        CasinoInstruction::decoded(built@.data) == Some(
            (CasinoInstruction::SettleGame { is_win, win_amount, result_hash }),
        ),
{
    let mut accounts: Vec<AccountMeta> = Vec::new();
    accounts.push(AccountMeta::new_readonly(*authority, true));
    accounts.push(AccountMeta::new_readonly(*casino_state, false));
    accounts.push(AccountMeta::new(*game_account, false));
    accounts.push(AccountMeta::new(*player, false));
    accounts.push(AccountMeta::new_readonly(Address { bytes: ZERO }, false));
    proof {
        assert(accounts@ =~= seq![
            AccountMeta::readonly(*authority, true),
            AccountMeta::readonly(*casino_state, false),
            AccountMeta::writable(*game_account, false),
            AccountMeta::writable(*player, false),
            AccountMeta::readonly(Address::zero(), false),
        ]);
    }
    build(CasinoInstruction::SettleGame { is_win, win_amount, result_hash }, accounts)
}

/// Builds the instruction by which `authority` changes the parameters
/// that are given.
pub fn update_params(
    authority: &Address,
    casino_state: &Address,
    house_edge: Option<u16>,
    min_bet: Option<u64>,
    max_bet: Option<u64>,
) -> (built: Instruction)
    ensures
        built@ == request(
            (CasinoInstruction::UpdateParams { house_edge, min_bet, max_bet }),
            seq![
                AccountMeta::writable(*authority, true),
                AccountMeta::writable(*casino_state, false),
            ],
        ),
        CasinoInstruction::decoded(built@.data) == Some(
            (CasinoInstruction::UpdateParams { house_edge, min_bet, max_bet }),
        ),
{
    let mut accounts: Vec<AccountMeta> = Vec::new();
    accounts.push(AccountMeta::new(*authority, true));
    accounts.push(AccountMeta::new(*casino_state, false));
    proof {
        assert(accounts@ =~= seq![
            AccountMeta::writable(*authority, true),
            AccountMeta::writable(*casino_state, false),
        ]);
    }
    build(CasinoInstruction::UpdateParams { house_edge, min_bet, max_bet }, accounts)
}

/// Builds the instruction by which `authority` lets `operator` settle
/// wagers.
pub fn add_operator(authority: &Address, casino_state: &Address, operator: &Address) -> (built:
    Instruction)
    ensures
        built@ == request(
            CasinoInstruction::AddOperator,
            seq![
                AccountMeta::writable(*authority, true),
                AccountMeta::writable(*casino_state, false),
                AccountMeta::readonly(*operator, false),
            ],
        ),
        CasinoInstruction::decoded(built@.data) == Some(CasinoInstruction::AddOperator),
{
    let mut accounts: Vec<AccountMeta> = Vec::new();
    accounts.push(AccountMeta::new(*authority, true));
    accounts.push(AccountMeta::new(*casino_state, false));
    accounts.push(AccountMeta::new_readonly(*operator, false));
    proof {
        assert(accounts@ =~= seq![
            AccountMeta::writable(*authority, true),
            AccountMeta::writable(*casino_state, false),
            AccountMeta::readonly(*operator, false),
        ]);
    }
    build(CasinoInstruction::AddOperator, accounts)
}

/// Builds the instruction by which `authority` withdraws the leave of
/// `operator` to settle wagers.
pub fn remove_operator(authority: &Address, casino_state: &Address, operator: &Address) -> (built:
    Instruction)
    ensures
        built@ == request(
            CasinoInstruction::RemoveOperator,
            seq![
                AccountMeta::writable(*authority, true),
                AccountMeta::writable(*casino_state, false),
                AccountMeta::readonly(*operator, false),
            ],
        ),
        CasinoInstruction::decoded(built@.data) == Some(CasinoInstruction::RemoveOperator),
{
    let mut accounts: Vec<AccountMeta> = Vec::new();
    accounts.push(AccountMeta::new(*authority, true));
    accounts.push(AccountMeta::new(*casino_state, false));
    accounts.push(AccountMeta::new_readonly(*operator, false));
    proof {
        assert(accounts@ =~= seq![
            AccountMeta::writable(*authority, true),
            AccountMeta::writable(*casino_state, false),
            AccountMeta::readonly(*operator, false),
        ]);
    }
    build(CasinoInstruction::RemoveOperator, accounts)
}

/// Finds the address of the configuration record of `authority` under
/// this program, with its bump seed.
pub fn find_casino_state_address(authority: &Address) -> (found: Option<(Address, u8)>)
    ensures
        derivation_view(found) == derived_address(
            (RecordKey::Casino { authority: *authority }).spec_seeds(),
            spec_id()@,
        ),
{
    find_address(&RecordKey::Casino { authority: *authority }, &id())
}

/// Finds the address of the game record of the wager `game_id` under this
/// program, with its bump seed.
pub fn find_game_address(game_id: &[u8; 32]) -> (found: Option<(Address, u8)>)
    ensures
        derivation_view(found) == derived_address(
            (RecordKey::Game { game_id: *game_id }).spec_seeds(),
            spec_id()@,
        ),
{
    find_address(&RecordKey::Game { game_id: *game_id }, &id())
}

} // verus!
