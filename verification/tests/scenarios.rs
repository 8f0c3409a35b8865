//! Whole instructions against an in-memory host that applies what the
//! engine commits.

use casino_game::client;
use casino_game::id::id;
use casino_game::{
    process_instruction, Account, Address, CasinoError, CasinoState, Commit, GameState,
};

/// What the host in these tests charges for a new record.
const RENT: u64 = 1_000_000;

/// The records of the ledger.
struct Host {
    records: Vec<Account>,
}

impl Host {
    fn new() -> Host {
        Host { records: Vec::new() }
    }

    fn fund(&mut self, key: Address, lamports: u64) {
        self.records.push(Account {
            key,
            is_signer: false,
            lamports,
            data: Vec::new(),
            owner: Address::default(),
        });
    }

    fn place(&self, key: &Address) -> Option<usize> {
        self.records.iter().position(|record| record.key == *key)
    }

    fn record(&self, key: &Address) -> &Account {
        &self.records[self.place(key).expect("no such record")]
    }

    /// Hands the instruction to the engine with the records it asks for,
    /// and applies the commit as a whole.
    fn run(&mut self, instruction: &client::Instruction) -> Result<Commit, CasinoError> {
        let accounts: Vec<Account> = instruction
            .accounts
            .iter()
            .map(|meta| match self.place(&meta.pubkey) {
                Some(at) => Account {
                    key: meta.pubkey,
                    is_signer: meta.is_signer,
                    lamports: self.records[at].lamports,
                    data: self.records[at].data.clone(),
                    owner: self.records[at].owner,
                },
                None => Account {
                    key: meta.pubkey,
                    is_signer: meta.is_signer,
                    lamports: 0,
                    data: Vec::new(),
                    owner: Address::default(),
                },
            })
            .collect();
        let commit = process_instruction(&instruction.program_id, &accounts, &instruction.data)?;
        let at = |index: usize, host: &mut Host| -> usize {
            let key = accounts[index].key;
            match host.place(&key) {
                Some(at) => at,
                None => {
                    host.fund(key, 0);
                    host.records.len() - 1
                }
            }
        };
        if let Some(create) = &commit.create {
            let payer = at(create.payer, self);
            let target = at(create.target, self);
            assert!(self.records[payer].lamports >= RENT, "the payer cannot fund the record");
            self.records[payer].lamports -= RENT;
            self.records[target].lamports += RENT;
            self.records[target].data = vec![0; create.space];
            self.records[target].owner = instruction.program_id;
        }
        if let Some(write) = &commit.write {
            let target = at(write.target, self);
            self.records[target].data = write.data.clone();
        }
        if let Some(transfer) = &commit.transfer {
            let source = at(transfer.source, self);
            let destination = at(transfer.destination, self);
            self.records[source].lamports -= transfer.amount;
            self.records[destination].lamports += transfer.amount;
        }
        Ok(commit)
    }
}

fn address(seed: u8) -> Address {
    let mut bytes = [seed; 32];
    bytes[0] = 0xA0;
    Address::new(bytes)
}

struct Setup {
    host: Host,
    authority: Address,
    player: Address,
    casino: Address,
    game_id: [u8; 32],
    game: Address,
}

/// A ledger with a funded authority and a funded player, and the
/// addresses of the authority's casino and of one wager.
fn setup(game_id: [u8; 32]) -> Setup {
    let authority = address(1);
    let player = address(2);
    let mut host = Host::new();
    host.fund(authority, 1_000_000_000);
    host.fund(player, 1_000_000_000);
    let (casino, _) = client::find_casino_state_address(&authority).unwrap();
    let (game, _) = client::find_game_address(&game_id).unwrap();
    Setup { host, authority, player, casino, game_id, game }
}

/// The same, with the casino initialized at an edge of 2.5 percent and
/// bets from 100_000 to 1_000_000_000.
fn casino(game_id: [u8; 32], house_edge: u16) -> Setup {
    let mut s = setup(game_id);
    s.host
        .run(&client::initialize(&s.authority, &s.casino, house_edge, 100_000, 1_000_000_000))
        .unwrap();
    s
}

/// The same, with a bet of 500_000 placed on the wager.
fn wager(game_id: [u8; 32], house_edge: u16) -> Setup {
    let mut s = casino(game_id, house_edge);
    s.host
        .run(&client::place_bet(&s.player, &s.casino, &s.game, s.game_id, 500_000))
        .unwrap();
    s
}

#[test]
fn test_initialize_casino() {
    let mut s = setup([1u8; 32]);
    let instruction = client::initialize(&s.authority, &s.casino, 250, 100_000, 1_000_000_000);
    s.host.run(&instruction).unwrap();
    let record = s.host.record(&s.casino);
    assert_eq!(record.owner, id());
    let state = CasinoState::try_from_slice(&record.data).unwrap();
    assert_eq!(state.authority, s.authority);
    assert_eq!(state.house_edge, 250);
    assert_eq!(state.min_bet, 100_000);
    assert_eq!(state.max_bet, 1_000_000_000);
    assert_eq!(state.operators, vec![s.authority]);
}

#[test]
fn initialize_commits_one_record() {
    let mut s = setup([1u8; 32]);
    let commit = s
        .host
        .run(&client::initialize(&s.authority, &s.casino, 250, 100_000, 1_000_000_000))
        .unwrap();
    let create = commit.create.unwrap();
    assert_eq!((create.payer, create.target, create.space), (0, 1, 86));
    assert_eq!(commit.write.unwrap().data.len(), 86);
    assert!(commit.transfer.is_none());
    assert_eq!(s.host.record(&s.casino).owner, id());
}

#[test]
fn a_placed_bet_belongs_to_the_program() {
    let mut s = casino([1u8; 32], 250);
    s.host.run(&client::place_bet(&s.player, &s.casino, &s.game, s.game_id, 500_000)).unwrap();
    assert_eq!(s.host.record(&s.game).owner, id());
}

#[test]
fn test_place_bet() {
    let mut s = casino([1u8; 32], 250);
    let bet_amount = 500_000;
    s.host.run(&client::place_bet(&s.player, &s.casino, &s.game, s.game_id, bet_amount)).unwrap();
    let game_state = GameState::try_from_slice(&s.host.record(&s.game).data).unwrap();
    assert_eq!(game_state.player, s.player);
    assert_eq!(game_state.bet_amount, bet_amount);
    assert_eq!(game_state.is_settled, false);
}

#[test]
fn place_bet_escrows_the_stake() {
    let mut s = casino([1u8; 32], 250);
    let commit = s
        .host
        .run(&client::place_bet(&s.player, &s.casino, &s.game, s.game_id, 500_000))
        .unwrap();
    let transfer = commit.transfer.unwrap();
    assert_eq!((transfer.source, transfer.destination, transfer.amount), (0, 2, 500_000));
    assert_eq!(commit.create.unwrap().space, 82);
    assert_eq!(s.host.record(&s.player).lamports, 1_000_000_000 - RENT - 500_000);
    assert_eq!(s.host.record(&s.game).lamports, RENT + 500_000);
    let game_state = GameState::try_from_slice(&s.host.record(&s.game).data).unwrap();
    assert_eq!(game_state.is_win, false);
    assert_eq!(game_state.win_amount, 0);
    assert_eq!(game_state.result_hash, [0u8; 32]);
}

#[test]
fn test_zero_bet_amount() {
    let mut s = casino([1u8; 32], 250);
    let result = s.host.run(&client::place_bet(&s.player, &s.casino, &s.game, s.game_id, 0));
    assert!(result.is_err());
}

#[test]
fn zero_bet_is_an_invalid_bet_and_leaves_no_record() {
    let mut s = casino([1u8; 32], 250);
    let result = s.host.run(&client::place_bet(&s.player, &s.casino, &s.game, s.game_id, 0));
    assert_eq!(result.unwrap_err(), CasinoError::InvalidBetAmount);
    assert!(s.host.place(&s.game).is_none());
}

#[test]
fn zero_bet_is_rejected_even_without_a_lower_bound() {
    let mut s = setup([1u8; 32]);
    s.host.run(&client::initialize(&s.authority, &s.casino, 250, 0, 1_000_000_000)).unwrap();
    let result = s.host.run(&client::place_bet(&s.player, &s.casino, &s.game, s.game_id, 0));
    assert_eq!(result.unwrap_err(), CasinoError::InvalidBetAmount);
    s.host.run(&client::place_bet(&s.player, &s.casino, &s.game, s.game_id, 1)).unwrap();
}

#[test]
fn payout_of_the_stake_is_admitted_without_a_house_edge() {
    // Without a house edge the highest payout is the stake itself.
    let mut s = wager([1u8; 32], 0);
    let bet_amount = 500_000;
    s.host
        .run(&client::settle_game(
            &s.authority,
            &s.casino,
            &s.game,
            &s.player,
            true,
            bet_amount,
            [2u8; 32],
        ))
        .unwrap();
}

#[test]
fn test_max_win_amount_calculation() {
    let mut s = wager([1u8; 32], 0);
    let win_amount = 500_000;
    s.host
        .run(&client::settle_game(
            &s.authority,
            &s.casino,
            &s.game,
            &s.player,
            true,
            win_amount,
            [2u8; 32],
        ))
        .unwrap();
    let game_state = GameState::try_from_slice(&s.host.record(&s.game).data).unwrap();
    assert_eq!(game_state.is_settled, true);
    assert_eq!(game_state.is_win, true);
    assert_eq!(game_state.win_amount, win_amount);
}

#[test]
fn payout_above_the_stake_is_rejected_without_a_house_edge() {
    let mut s = wager([1u8; 32], 0);
    let result = s.host.run(&client::settle_game(
        &s.authority,
        &s.casino,
        &s.game,
        &s.player,
        true,
        500_001,
        [2u8; 32],
    ));
    assert_eq!(result.unwrap_err(), CasinoError::ExpectedAmountMismatch);
}

#[test]
fn test_max_house_edge() {
    let mut s = setup([1u8; 32]);
    s.host.run(&client::initialize(&s.authority, &s.casino, 1000, 100_000, 1_000_000_000)).unwrap();
}

#[test]
fn house_edge_above_the_cap_is_rejected() {
    let mut s = setup([1u8; 32]);
    let result = s.host.run(&client::initialize(&s.authority, &s.casino, 1001, 100_000, 1_000_000_000));
    assert_eq!(result.unwrap_err(), CasinoError::InvalidHouseEdge);
    assert!(s.host.place(&s.casino).is_none());
}

#[test]
fn test_settle_non_existent_game() {
    let mut s = casino([1u8; 32], 250);
    let result = s.host.run(&client::settle_game(
        &s.authority,
        &s.casino,
        &s.game,
        &s.player,
        true,
        500_000,
        [2u8; 32],
    ));
    assert!(result.is_err());
    assert_eq!(result.unwrap_err(), CasinoError::GameNotFound);
}

#[test]
fn test_initialize_twice() {
    let mut s = casino([1u8; 32], 250);
    let result = s.host.run(&client::initialize(&s.authority, &s.casino, 250, 100_000, 1_000_000_000));
    assert!(result.is_err());
    assert_eq!(result.unwrap_err(), CasinoError::GameAlreadyExists);
    let other = s.host.run(&client::initialize(&s.authority, &s.casino, 300, 1, 2));
    assert_eq!(other.unwrap_err(), CasinoError::GameAlreadyExists);
    let state = CasinoState::try_from_slice(&s.host.record(&s.casino).data).unwrap();
    assert_eq!((state.house_edge, state.min_bet, state.max_bet), (250, 100_000, 1_000_000_000));
}

#[test]
fn test_settle_with_wrong_player() {
    let mut s = wager([1u8; 32], 250);
    let wrong_player = address(3);
    s.host.fund(wrong_player, 1_000_000_000);
    let result = s.host.run(&client::settle_game(
        &s.authority,
        &s.casino,
        &s.game,
        &wrong_player,
        true,
        900_000,
        [2u8; 32],
    ));
    assert!(result.is_err());
}

#[test]
fn wrong_player_is_an_address_mismatch() {
    let mut s = wager([1u8; 32], 250);
    let wrong_player = address(3);
    s.host.fund(wrong_player, 1_000_000_000);
    let result = s.host.run(&client::settle_game(
        &s.authority,
        &s.casino,
        &s.game,
        &wrong_player,
        true,
        400_000,
        [2u8; 32],
    ));
    assert_eq!(result.unwrap_err(), CasinoError::AddressMismatch);
    let game_state = GameState::try_from_slice(&s.host.record(&s.game).data).unwrap();
    assert_eq!(game_state.is_settled, false);
    assert_eq!(s.host.record(&wrong_player).lamports, 1_000_000_000);
}

#[test]
fn test_place_bet_with_same_game_id() {
    let mut s = wager([1u8; 32], 250);
    let player2 = address(3);
    s.host.fund(player2, 1_000_000_000);
    let result = s.host.run(&client::place_bet(&player2, &s.casino, &s.game, s.game_id, 500_000));
    assert!(result.is_err());
    assert_eq!(result.unwrap_err(), CasinoError::GameAlreadyExists);
    let again = s.host.run(&client::place_bet(&s.player, &s.casino, &s.game, s.game_id, 500_000));
    assert_eq!(again.unwrap_err(), CasinoError::GameAlreadyExists);
    let game_state = GameState::try_from_slice(&s.host.record(&s.game).data).unwrap();
    assert_eq!(game_state.player, s.player);
}

#[test]
fn update_without_parameters_changes_nothing() {
    let mut s = casino([1u8; 32], 250);
    let before = s.host.record(&s.casino).data.clone();
    s.host.run(&client::update_params(&s.authority, &s.casino, None, None, None)).unwrap();
    assert_eq!(s.host.record(&s.casino).data, before);
}

#[test]
fn update_checks_the_bounds_that_result() {
    let mut s = casino([1u8; 32], 250);
    // Both bounds move above the old upper bound in one step.
    s.host
        .run(&client::update_params(
            &s.authority,
            &s.casino,
            None,
            Some(2_000_000_000),
            Some(3_000_000_000),
        ))
        .unwrap();
    // The new lower bound alone would cross the upper bound.
    let result = s.host.run(&client::update_params(
        &s.authority,
        &s.casino,
        None,
        Some(3_000_000_001),
        None,
    ));
    assert_eq!(result.unwrap_err(), CasinoError::InvalidBetAmount);
    let edge = s.host.run(&client::update_params(&s.authority, &s.casino, Some(1001), None, None));
    assert_eq!(edge.unwrap_err(), CasinoError::InvalidHouseEdge);
    let state = CasinoState::try_from_slice(&s.host.record(&s.casino).data).unwrap();
    assert_eq!((state.house_edge, state.min_bet, state.max_bet), (250, 2_000_000_000, 3_000_000_000));
}

#[test]
fn test_update_params() {
    let mut s = casino([1u8; 32], 250);
    s.host
        .run(&client::update_params(
            &s.authority,
            &s.casino,
            Some(300),
            Some(200_000),
            Some(2_000_000_000),
        ))
        .unwrap();
    let record = s.host.record(&s.casino);
    assert_eq!(record.owner, id());
    let state = CasinoState::try_from_slice(&record.data).unwrap();
    assert_eq!((state.house_edge, state.min_bet, state.max_bet), (300, 200_000, 2_000_000_000));
}

#[test]
fn test_unauthorized_access() {
    let mut s = casino([1u8; 32], 250);
    let attacker = address(9);
    s.host.fund(attacker, 1_000_000_000);
    let result = s.host.run(&client::update_params(
        &attacker,
        &s.casino,
        Some(300),
        Some(200_000),
        Some(2_000_000_000),
    ));
    assert!(result.is_err());
    let result = s.host.run(&client::add_operator(&attacker, &s.casino, &attacker));
    assert!(result.is_err());
}

#[test]
fn a_stranger_is_unauthorized() {
    let mut s = casino([1u8; 32], 250);
    let attacker = address(9);
    s.host.fund(attacker, 1_000_000_000);
    let result = s.host.run(&client::update_params(
        &attacker,
        &s.casino,
        Some(300),
        Some(200_000),
        Some(2_000_000_000),
    ));
    assert!(result.is_err());
    assert_eq!(result.unwrap_err(), CasinoError::Unauthorized);
}

#[test]
fn unsigned_instructions_are_rejected() {
    let mut s = wager([1u8; 32], 250);
    let mut update = client::update_params(&s.authority, &s.casino, Some(300), None, None);
    update.accounts[0].is_signer = false;
    assert_eq!(s.host.run(&update).unwrap_err(), CasinoError::Unauthorized);
    let mut settle =
        client::settle_game(&s.authority, &s.casino, &s.game, &s.player, false, 0, [0u8; 32]);
    settle.accounts[0].is_signer = false;
    assert_eq!(s.host.run(&settle).unwrap_err(), CasinoError::Unauthorized);
    let other_game = client::find_game_address(&[7u8; 32]).unwrap().0;
    let mut bet = client::place_bet(&s.player, &s.casino, &other_game, [7u8; 32], 500_000);
    bet.accounts[0].is_signer = false;
    assert_eq!(s.host.run(&bet).unwrap_err(), CasinoError::Unauthorized);
}

#[test]
fn test_input_validation() {
    let mut s = setup([1u8; 32]);
    let result = s.host.run(&client::initialize(&s.authority, &s.casino, 1100, 100_000, 1_000_000_000));
    assert!(result.is_err());
    let result = s.host.run(&client::initialize(
        &s.authority,
        &s.casino,
        250,
        2_000_000_000,
        1_000_000_000,
    ));
    assert!(result.is_err());
    assert_eq!(result.unwrap_err(), CasinoError::InvalidBetAmount);
}

#[test]
fn house_edge_of_eleven_percent_is_rejected() {
    let mut s = setup([1u8; 32]);
    let result = s.host.run(&client::initialize(&s.authority, &s.casino, 1100, 100_000, 1_000_000_000));
    assert!(result.is_err());
    assert_eq!(result.unwrap_err(), CasinoError::InvalidHouseEdge);
}

#[test]
fn test_bet_limits() {
    let mut s = casino([1u8; 32], 250);
    let below = client::find_game_address(&[1u8; 32]).unwrap().0;
    let result = s.host.run(&client::place_bet(&s.player, &s.casino, &below, [1u8; 32], 50_000));
    assert!(result.is_err());
    let above = client::find_game_address(&[2u8; 32]).unwrap().0;
    let result = s.host.run(&client::place_bet(&s.player, &s.casino, &above, [2u8; 32], 1_500_000_000));
    assert!(result.is_err());
    let valid = client::find_game_address(&[3u8; 32]).unwrap().0;
    s.host.run(&client::place_bet(&s.player, &s.casino, &valid, [3u8; 32], 500_000)).unwrap();
}

#[test]
fn bets_at_the_bounds_are_taken() {
    let mut s = casino([1u8; 32], 250);
    let low = client::find_game_address(&[4u8; 32]).unwrap().0;
    s.host.run(&client::place_bet(&s.player, &s.casino, &low, [4u8; 32], 100_000)).unwrap();
    let under = client::find_game_address(&[5u8; 32]).unwrap().0;
    let result = s.host.run(&client::place_bet(&s.player, &s.casino, &under, [5u8; 32], 99_999));
    assert_eq!(result.unwrap_err(), CasinoError::InvalidBetAmount);
    let rich = address(7);
    s.host.fund(rich, 3_000_000_000);
    let high = client::find_game_address(&[6u8; 32]).unwrap().0;
    let over = s.host.run(&client::place_bet(&rich, &s.casino, &high, [6u8; 32], 1_000_000_001));
    assert_eq!(over.unwrap_err(), CasinoError::InvalidBetAmount);
    s.host.run(&client::place_bet(&rich, &s.casino, &high, [6u8; 32], 1_000_000_000)).unwrap();
}

#[test]
fn bet_above_the_balance_is_rejected() {
    let mut s = casino([1u8; 32], 250);
    let poor = address(7);
    s.host.fund(poor, 499_999);
    let result = s.host.run(&client::place_bet(&poor, &s.casino, &s.game, s.game_id, 500_000));
    assert_eq!(result.unwrap_err(), CasinoError::InsufficientFunds);
}

#[test]
fn bet_at_a_foreign_address_is_rejected() {
    let mut s = casino([1u8; 32], 250);
    let elsewhere = address(8);
    let result = s.host.run(&client::place_bet(&s.player, &s.casino, &elsewhere, s.game_id, 500_000));
    assert_eq!(result.unwrap_err(), CasinoError::AddressMismatch);
    let other = client::find_game_address(&[9u8; 32]).unwrap().0;
    let result = s.host.run(&client::place_bet(&s.player, &s.casino, &other, s.game_id, 500_000));
    assert_eq!(result.unwrap_err(), CasinoError::AddressMismatch);
}

#[test]
fn casino_at_a_foreign_address_is_rejected() {
    let mut s = setup([1u8; 32]);
    let other = client::find_casino_state_address(&s.player).unwrap().0;
    let result = s.host.run(&client::initialize(&s.authority, &other, 250, 100_000, 1_000_000_000));
    assert_eq!(result.unwrap_err(), CasinoError::AddressMismatch);
}

#[test]
fn bet_without_a_casino_is_rejected() {
    let mut s = setup([1u8; 32]);
    let result = s.host.run(&client::place_bet(&s.player, &s.casino, &s.game, s.game_id, 500_000));
    assert_eq!(result.unwrap_err(), CasinoError::InvalidInstruction);
}

#[test]
fn test_win_amount_validation() {
    let mut s = wager([1u8; 32], 250);
    let house_edge: u16 = 250;
    let bet_amount: u64 = 500_000;
    let basis_points: u64 = 10000;
    let max_possible_win = bet_amount * basis_points / (basis_points - house_edge as u64);
    let excessive_win_amount = max_possible_win + 100_000;
    let result_hash = [2u8; 32];
    let result = s.host.run(&client::settle_game(
        &s.authority,
        &s.casino,
        &s.game,
        &s.player,
        true,
        excessive_win_amount,
        result_hash,
    ));
    assert!(result.is_err());
    let valid_win_amount = max_possible_win - 1;
    s.host
        .run(&client::settle_game(
            &s.authority,
            &s.casino,
            &s.game,
            &s.player,
            true,
            valid_win_amount,
            result_hash,
        ))
        .unwrap();
}

#[test]
fn settle_at_the_bound_and_one_above() {
    // An edge of 250 and a stake of 500_000: the bound is 512_820.
    let mut s = wager([1u8; 32], 250);
    let above = s.host.run(&client::settle_game(
        &s.authority,
        &s.casino,
        &s.game,
        &s.player,
        true,
        512_821,
        [2u8; 32],
    ));
    assert_eq!(above.unwrap_err(), CasinoError::ExpectedAmountMismatch);
    let player_before = s.host.record(&s.player).lamports;
    let escrow_before = s.host.record(&s.game).lamports;
    let commit = s
        .host
        .run(&client::settle_game(
            &s.authority,
            &s.casino,
            &s.game,
            &s.player,
            true,
            512_820,
            [2u8; 32],
        ))
        .unwrap();
    let transfer = commit.transfer.unwrap();
    assert_eq!((transfer.source, transfer.destination, transfer.amount), (2, 3, 512_820));
    assert!(commit.create.is_none());
    assert_eq!(s.host.record(&s.player).lamports, player_before + 512_820);
    assert_eq!(s.host.record(&s.game).lamports, escrow_before - 512_820);
}

#[test]
fn test_settle_game() {
    let mut s = wager([2u8; 32], 250);
    let is_win = true;
    let win_amount = 500_000;
    let result_hash = [3u8; 32];
    s.host
        .run(&client::settle_game(
            &s.authority,
            &s.casino,
            &s.game,
            &s.player,
            is_win,
            win_amount,
            result_hash,
        ))
        .unwrap();
    let game_state = GameState::try_from_slice(&s.host.record(&s.game).data).unwrap();
    assert_eq!(game_state.is_settled, true);
    assert_eq!(game_state.is_win, is_win);
    assert_eq!(game_state.win_amount, win_amount);
    assert_eq!(game_state.result_hash, result_hash);
}

#[test]
fn a_loss_moves_nothing() {
    let mut s = wager([1u8; 32], 250);
    let player_before = s.host.record(&s.player).lamports;
    let escrow_before = s.host.record(&s.game).lamports;
    let commit = s
        .host
        .run(&client::settle_game(
            &s.authority,
            &s.casino,
            &s.game,
            &s.player,
            false,
            900_000,
            [4u8; 32],
        ))
        .unwrap();
    assert!(commit.transfer.is_none());
    assert_eq!(s.host.record(&s.player).lamports, player_before);
    assert_eq!(s.host.record(&s.game).lamports, escrow_before);
    let game_state = GameState::try_from_slice(&s.host.record(&s.game).data).unwrap();
    assert_eq!(game_state.is_settled, true);
    assert_eq!(game_state.is_win, false);
    assert_eq!(game_state.win_amount, 900_000);
    assert_eq!(game_state.result_hash, [4u8; 32]);
}

#[test]
fn a_settled_wager_stays_settled() {
    let mut s = wager([1u8; 32], 250);
    s.host
        .run(&client::settle_game(
            &s.authority,
            &s.casino,
            &s.game,
            &s.player,
            true,
            400_000,
            [2u8; 32],
        ))
        .unwrap();
    let settled = s.host.record(&s.game).data.clone();
    for (is_win, win_amount) in [(true, 800_000), (true, 1), (false, 0), (true, 400_000)] {
        let result = s.host.run(&client::settle_game(
            &s.authority,
            &s.casino,
            &s.game,
            &s.player,
            is_win,
            win_amount,
            [3u8; 32],
        ));
        assert_eq!(result.unwrap_err(), CasinoError::GameAlreadySettled);
    }
    assert_eq!(s.host.record(&s.game).data, settled);
}

#[test]
fn payout_above_the_escrow_is_rejected() {
    let mut s = wager([1u8; 32], 250);
    let at = s.host.place(&s.game).unwrap();
    s.host.records[at].lamports = 500_000;
    let result = s.host.run(&client::settle_game(
        &s.authority,
        &s.casino,
        &s.game,
        &s.player,
        true,
        500_001,
        [2u8; 32],
    ));
    assert_eq!(result.unwrap_err(), CasinoError::InsufficientFunds);
}

#[test]
fn payout_beyond_the_range_of_the_balance_is_rejected() {
    let mut s = wager([1u8; 32], 250);
    let at = s.host.place(&s.player).unwrap();
    s.host.records[at].lamports = u64::MAX - 10;
    let result = s.host.run(&client::settle_game(
        &s.authority,
        &s.casino,
        &s.game,
        &s.player,
        true,
        11,
        [2u8; 32],
    ));
    assert_eq!(result.unwrap_err(), CasinoError::ArithmeticOverflow);
    s.host
        .run(&client::settle_game(&s.authority, &s.casino, &s.game, &s.player, true, 10, [2u8; 32]))
        .unwrap();
    assert_eq!(s.host.record(&s.player).lamports, u64::MAX);
}

#[test]
fn operators_come_and_go() {
    let mut s = wager([1u8; 32], 250);
    let operator = address(5);
    s.host.fund(operator, 1_000_000_000);
    let settle = client::settle_game(&operator, &s.casino, &s.game, &s.player, true, 400_000, [2u8; 32]);
    // Not an operator yet.
    assert_eq!(s.host.run(&settle).unwrap_err(), CasinoError::Unauthorized);
    // Added once, and once more without effect.
    let add = client::add_operator(&s.authority, &s.casino, &operator);
    assert!(s.host.run(&add).unwrap().write.is_some());
    let listed = s.host.record(&s.casino).data.clone();
    let again = s.host.run(&add).unwrap();
    assert!(again.write.is_none() && again.create.is_none() && again.transfer.is_none());
    assert_eq!(s.host.record(&s.casino).data, listed);
    let state = CasinoState::try_from_slice(&listed).unwrap();
    assert_eq!(state.operators, vec![s.authority, operator]);
    // The authority stays.
    let result = s.host.run(&client::remove_operator(&s.authority, &s.casino, &s.authority));
    assert!(result.is_err());
    assert_eq!(result.unwrap_err(), CasinoError::Unauthorized);
    // Removing a stranger changes nothing.
    let stranger = address(6);
    let nothing = s.host.run(&client::remove_operator(&s.authority, &s.casino, &stranger)).unwrap();
    assert!(nothing.write.is_none());
    assert_eq!(s.host.record(&s.casino).data, listed);
    // The operator settles, is removed, and may settle no longer.
    s.host.run(&settle).unwrap();
    s.host.run(&client::remove_operator(&s.authority, &s.casino, &operator)).unwrap();
    let state = CasinoState::try_from_slice(&s.host.record(&s.casino).data).unwrap();
    assert_eq!(state.operators, vec![s.authority]);
    let other_game = client::find_game_address(&[8u8; 32]).unwrap().0;
    s.host.run(&client::place_bet(&s.player, &s.casino, &other_game, [8u8; 32], 500_000)).unwrap();
    let late = client::settle_game(&operator, &s.casino, &other_game, &s.player, false, 0, [0u8; 32]);
    assert_eq!(s.host.run(&late).unwrap_err(), CasinoError::Unauthorized);
}

#[test]
fn test_operator_management() {
    let mut s = casino([1u8; 32], 250);
    let operator = address(5);
    s.host.run(&client::add_operator(&s.authority, &s.casino, &operator)).unwrap();
    assert_eq!(s.host.record(&s.casino).owner, id());
    assert_eq!(s.host.record(&s.casino).data.len(), 86 + 32);
    s.host.run(&client::remove_operator(&s.authority, &s.casino, &operator)).unwrap();
    assert_eq!(s.host.record(&s.casino).owner, id());
    assert_eq!(s.host.record(&s.casino).data.len(), 86);
}

#[test]
fn too_few_records_are_rejected() {
    let mut s = wager([1u8; 32], 250);
    let shorten = |mut instruction: client::Instruction| {
        instruction.accounts.pop();
        instruction
    };
    let cases = vec![
        shorten(client::initialize(&s.player, &address(4), 250, 1, 2)),
        shorten(client::place_bet(&s.player, &s.casino, &s.game, s.game_id, 500_000)),
        shorten(client::settle_game(&s.authority, &s.casino, &s.game, &s.player, false, 0, [0; 32])),
        shorten(client::update_params(&s.authority, &s.casino, None, None, None)),
        shorten(client::add_operator(&s.authority, &s.casino, &s.player)),
        shorten(client::remove_operator(&s.authority, &s.casino, &s.player)),
    ];
    for instruction in cases {
        assert_eq!(s.host.run(&instruction).unwrap_err(), CasinoError::InvalidInstruction);
    }
}

#[test]
fn unreadable_instructions_are_rejected() {
    let mut s = casino([1u8; 32], 250);
    let mut instruction = client::update_params(&s.authority, &s.casino, None, None, None);
    for data in [vec![], vec![6u8], vec![3u8, 2, 0, 0], vec![3u8, 0, 0, 0, 0], vec![4u8, 0]] {
        instruction.data = data;
        assert_eq!(s.host.run(&instruction).unwrap_err(), CasinoError::InvalidInstruction);
    }
}
