//! The bytes of instructions and records, held against hand-written
//! bytes and against the `borsh` crate's encoding of the same fields.

use borsh::{BorshDeserialize, BorshSerialize};
use casino_game::{Address, CasinoError, CasinoInstruction, CasinoState, GameState};

fn address(seed: u8) -> Address {
    Address::new([seed; 32])
}

fn instructions() -> Vec<CasinoInstruction> {
    vec![
        CasinoInstruction::Initialize { house_edge: 250, min_bet: 100_000, max_bet: 1_000_000_000 },
        CasinoInstruction::Initialize { house_edge: 0, min_bet: 0, max_bet: 0 },
        CasinoInstruction::Initialize { house_edge: u16::MAX, min_bet: u64::MAX, max_bet: u64::MAX },
        CasinoInstruction::PlaceBet { game_id: [1u8; 32], bet_amount: 500_000 },
        CasinoInstruction::PlaceBet { game_id: [0xffu8; 32], bet_amount: u64::MAX },
        CasinoInstruction::SettleGame { is_win: true, win_amount: 512_820, result_hash: [2u8; 32] },
        CasinoInstruction::SettleGame { is_win: false, win_amount: 0, result_hash: [0u8; 32] },
        CasinoInstruction::UpdateParams { house_edge: None, min_bet: None, max_bet: None },
        CasinoInstruction::UpdateParams { house_edge: Some(300), min_bet: None, max_bet: None },
        CasinoInstruction::UpdateParams { house_edge: None, min_bet: Some(7), max_bet: None },
        CasinoInstruction::UpdateParams { house_edge: None, min_bet: None, max_bet: Some(9) },
        CasinoInstruction::UpdateParams {
            house_edge: Some(1000),
            min_bet: Some(200_000),
            max_bet: Some(2_000_000_000),
        },
        CasinoInstruction::UpdateParams { house_edge: Some(0), min_bet: Some(0), max_bet: Some(1) },
        CasinoInstruction::AddOperator,
        CasinoInstruction::RemoveOperator,
    ]
}

/// The bytes that `borsh` writes for the fields of an instruction after
/// the byte of its kind.
fn borsh_bytes(instruction: &CasinoInstruction) -> Vec<u8> {
    match *instruction {
        CasinoInstruction::Initialize { house_edge, min_bet, max_bet } => {
            (0u8, house_edge, min_bet, max_bet).try_to_vec().unwrap()
        }
        CasinoInstruction::PlaceBet { game_id, bet_amount } => {
            (1u8, game_id, bet_amount).try_to_vec().unwrap()
        }
        CasinoInstruction::SettleGame { is_win, win_amount, result_hash } => {
            (2u8, is_win, win_amount, result_hash).try_to_vec().unwrap()
        }
        CasinoInstruction::UpdateParams { house_edge, min_bet, max_bet } => {
            (3u8, house_edge, min_bet, max_bet).try_to_vec().unwrap()
        }
        CasinoInstruction::AddOperator => 4u8.try_to_vec().unwrap(),
        CasinoInstruction::RemoveOperator => 5u8.try_to_vec().unwrap(),
    }
}

#[test]
fn initialize_bytes() {
    let instruction =
        CasinoInstruction::Initialize { house_edge: 250, min_bet: 100_000, max_bet: 1_000_000_000 };
    let expected: Vec<u8> = vec![
        0, 0xfa, 0x00, 0xa0, 0x86, 0x01, 0, 0, 0, 0, 0, 0x00, 0xca, 0x9a, 0x3b, 0, 0, 0, 0,
    ];
    assert_eq!(instruction.try_to_vec().unwrap(), expected);
    assert_eq!(CasinoInstruction::try_from_slice(&expected).unwrap(), instruction);
}

#[test]
fn place_bet_bytes() {
    let instruction = CasinoInstruction::PlaceBet { game_id: [7u8; 32], bet_amount: 0x0102030405060708 };
    let mut expected: Vec<u8> = vec![1];
    expected.extend_from_slice(&[7u8; 32]);
    expected.extend_from_slice(&[8, 7, 6, 5, 4, 3, 2, 1]);
    assert_eq!(instruction.try_to_vec().unwrap(), expected);
    assert_eq!(CasinoInstruction::try_from_slice(&expected).unwrap(), instruction);
}

#[test]
fn settle_game_bytes() {
    let instruction =
        CasinoInstruction::SettleGame { is_win: true, win_amount: 512_820, result_hash: [9u8; 32] };
    let mut expected: Vec<u8> = vec![2, 1, 0x34, 0xd3, 0x07, 0, 0, 0, 0, 0];
    expected.extend_from_slice(&[9u8; 32]);
    assert_eq!(instruction.try_to_vec().unwrap(), expected);
    assert_eq!(CasinoInstruction::try_from_slice(&expected).unwrap(), instruction);
}

#[test]
fn update_params_bytes() {
    let all = CasinoInstruction::UpdateParams {
        house_edge: Some(300),
        min_bet: Some(200_000),
        max_bet: Some(2_000_000_000),
    };
    let expected: Vec<u8> = vec![
        3, 1, 0x2c, 0x01, 1, 0x40, 0x0d, 0x03, 0, 0, 0, 0, 0, 1, 0x00, 0x94, 0x35, 0x77, 0, 0, 0, 0,
    ];
    assert_eq!(all.try_to_vec().unwrap(), expected);
    assert_eq!(CasinoInstruction::try_from_slice(&expected).unwrap(), all);
    let none = CasinoInstruction::UpdateParams { house_edge: None, min_bet: None, max_bet: None };
    assert_eq!(none.try_to_vec().unwrap(), vec![3, 0, 0, 0]);
    let middle = CasinoInstruction::UpdateParams { house_edge: None, min_bet: Some(1), max_bet: None };
    assert_eq!(middle.try_to_vec().unwrap(), vec![3, 0, 1, 1, 0, 0, 0, 0, 0, 0, 0, 0]);
}

#[test]
fn operator_instruction_bytes() {
    assert_eq!(CasinoInstruction::AddOperator.try_to_vec().unwrap(), vec![4]);
    assert_eq!(CasinoInstruction::RemoveOperator.try_to_vec().unwrap(), vec![5]);
    assert_eq!(CasinoInstruction::try_from_slice(&[4]).unwrap(), CasinoInstruction::AddOperator);
    assert_eq!(CasinoInstruction::try_from_slice(&[5]).unwrap(), CasinoInstruction::RemoveOperator);
}

#[test]
fn instructions_are_read_back() {
    for instruction in instructions() {
        let bytes = instruction.try_to_vec().unwrap();
        assert_eq!(CasinoInstruction::try_from_slice(&bytes).unwrap(), instruction);
    }
}

#[test]
fn instructions_are_written_as_borsh_writes_them() {
    for instruction in instructions() {
        assert_eq!(instruction.try_to_vec().unwrap(), borsh_bytes(&instruction));
    }
}

#[test]
fn instructions_are_read_as_borsh_reads_them() {
    let bytes = CasinoInstruction::UpdateParams {
        house_edge: Some(300),
        min_bet: None,
        max_bet: Some(2_000_000_000),
    }
    .try_to_vec()
    .unwrap();
    let read = <(u8, Option<u16>, Option<u64>, Option<u64>)>::try_from_slice(&bytes).unwrap();
    assert_eq!(read, (3, Some(300), None, Some(2_000_000_000)));
    let bytes = CasinoInstruction::SettleGame { is_win: true, win_amount: 77, result_hash: [5; 32] }
        .try_to_vec()
        .unwrap();
    let read = <(u8, bool, u64, [u8; 32])>::try_from_slice(&bytes).unwrap();
    assert_eq!(read, (2, true, 77, [5; 32]));
}

#[test]
fn malformed_instructions_are_rejected() {
    let mut cases: Vec<Vec<u8>> = vec![
        vec![],
        vec![6],
        vec![255],
        vec![0],
        vec![4, 0],
        vec![5, 5],
        vec![3],
        vec![3, 0, 0],
        vec![3, 0, 0, 0, 0],
        vec![3, 2, 0, 0],
        vec![3, 0, 2, 0],
        vec![3, 0, 0, 2],
        vec![3, 1, 0, 0, 0],
        vec![3, 1, 1, 1, 0],
        vec![3, 1, 1, 1, 0, 0, 0],
        vec![3, 0, 1, 1, 2, 3, 4, 5, 6, 7, 0],
        vec![3, 0, 0, 1, 1, 2, 3, 4, 5, 6, 7],
    ];
    for instruction in instructions() {
        let bytes = instruction.try_to_vec().unwrap();
        let mut longer = bytes.clone();
        longer.push(0);
        cases.push(longer);
        if bytes.len() > 1 {
            cases.push(bytes[..bytes.len() - 1].to_vec());
        }
    }
    // A truth value is a zero or a one.
    let mut settle = CasinoInstruction::SettleGame { is_win: true, win_amount: 1, result_hash: [0; 32] }
        .try_to_vec()
        .unwrap();
    settle[1] = 2;
    cases.push(settle);
    for bytes in cases {
        assert_eq!(
            CasinoInstruction::try_from_slice(&bytes),
            Err(CasinoError::InvalidInstruction),
            "{:?}",
            bytes
        );
    }
}

#[test]
fn borsh_rejects_what_the_engine_rejects() {
    assert!(<(u8, Option<u16>, Option<u64>, Option<u64>)>::try_from_slice(&[3, 2, 0, 0]).is_err());
    assert!(<(u8, Option<u16>, Option<u64>, Option<u64>)>::try_from_slice(&[3, 0, 0, 0, 0]).is_err());
    assert!(<(u8, Option<u16>, Option<u64>, Option<u64>)>::try_from_slice(&[3, 1, 0, 0, 0]).is_err());
    let mut settle = (2u8, true, 1u64, [0u8; 32]).try_to_vec().unwrap();
    settle[1] = 2;
    assert!(<(u8, bool, u64, [u8; 32])>::try_from_slice(&settle).is_err());
}

#[test]
fn game_record_bytes() {
    let game = GameState {
        player: address(3),
        bet_amount: 500_000,
        is_settled: true,
        is_win: false,
        win_amount: 258,
        result_hash: [4u8; 32],
    };
    let mut expected: Vec<u8> = Vec::new();
    expected.extend_from_slice(&[3u8; 32]);
    expected.extend_from_slice(&[0x20, 0xa1, 0x07, 0, 0, 0, 0, 0]);
    expected.extend_from_slice(&[1, 0]);
    expected.extend_from_slice(&[2, 1, 0, 0, 0, 0, 0, 0]);
    expected.extend_from_slice(&[4u8; 32]);
    let bytes = game.try_to_vec().unwrap();
    assert_eq!(bytes.len(), 82);
    assert_eq!(bytes, expected);
    assert_eq!(GameState::try_from_slice(&bytes).unwrap(), game);
    let by_borsh = ([3u8; 32], 500_000u64, true, false, 258u64, [4u8; 32]).try_to_vec().unwrap();
    assert_eq!(bytes, by_borsh);
}

#[test]
fn malformed_game_records_are_not_found() {
    let game = GameState {
        player: address(3),
        bet_amount: 1,
        is_settled: false,
        is_win: false,
        win_amount: 0,
        result_hash: [0u8; 32],
    };
    let bytes = game.try_to_vec().unwrap();
    assert_eq!(GameState::try_from_slice(&[]), Err(CasinoError::GameNotFound));
    assert_eq!(GameState::try_from_slice(&bytes[..81]), Err(CasinoError::GameNotFound));
    let mut longer = bytes.clone();
    longer.push(0);
    assert_eq!(GameState::try_from_slice(&longer), Err(CasinoError::GameNotFound));
    for at in [40usize, 41] {
        let mut flagged = bytes.clone();
        flagged[at] = 2;
        assert_eq!(GameState::try_from_slice(&flagged), Err(CasinoError::GameNotFound));
    }
    assert_eq!(GameState::try_from_slice(&vec![0u8; 82]).unwrap().player, address(0));
}

fn casino(operators: Vec<Address>) -> CasinoState {
    CasinoState {
        authority: address(1),
        house_edge: 250,
        min_bet: 100_000,
        max_bet: 1_000_000_000,
        operators,
    }
}

fn same(a: &CasinoState, b: &CasinoState) -> bool {
    a.authority == b.authority
        && a.house_edge == b.house_edge
        && a.min_bet == b.min_bet
        && a.max_bet == b.max_bet
        && a.operators == b.operators
}

#[test]
fn casino_record_bytes() {
    let state = casino(vec![address(1), address(8)]);
    let mut expected: Vec<u8> = Vec::new();
    expected.extend_from_slice(&[1u8; 32]);
    expected.extend_from_slice(&[0xfa, 0x00]);
    expected.extend_from_slice(&[0xa0, 0x86, 0x01, 0, 0, 0, 0, 0]);
    expected.extend_from_slice(&[0x00, 0xca, 0x9a, 0x3b, 0, 0, 0, 0]);
    expected.extend_from_slice(&[2, 0, 0, 0]);
    expected.extend_from_slice(&[1u8; 32]);
    expected.extend_from_slice(&[8u8; 32]);
    let bytes = state.try_to_vec().unwrap();
    assert_eq!(bytes.len(), 54 + 64);
    assert_eq!(bytes, expected);
    assert!(same(&CasinoState::try_from_slice(&bytes).unwrap(), &state));
    let by_borsh = ([1u8; 32], 250u16, 100_000u64, 1_000_000_000u64, vec![[1u8; 32], [8u8; 32]])
        .try_to_vec()
        .unwrap();
    assert_eq!(bytes, by_borsh);
}

#[test]
fn casino_records_are_read_back() {
    for count in [0usize, 1, 2, 5, 40] {
        let operators: Vec<Address> = (0..count).map(|i| address(i as u8)).collect();
        let state = casino(operators);
        let bytes = state.try_to_vec().unwrap();
        assert_eq!(bytes.len(), 54 + 32 * count);
        assert!(same(&CasinoState::try_from_slice(&bytes).unwrap(), &state));
        let read = <([u8; 32], u16, u64, u64, Vec<[u8; 32]>)>::try_from_slice(&bytes).unwrap();
        assert_eq!(read.4.len(), count);
    }
}

#[test]
fn malformed_casino_records_are_rejected() {
    let bytes = casino(vec![address(1), address(8)]).try_to_vec().unwrap();
    let rejected = |data: &[u8]| match CasinoState::try_from_slice(data) {
        Err(error) => error == CasinoError::InvalidInstruction,
        Ok(_) => false,
    };
    assert!(rejected(&[]));
    assert!(rejected(&bytes[..53]));
    assert!(rejected(&bytes[..bytes.len() - 1]));
    assert!(rejected(&bytes[..bytes.len() - 32]));
    let mut longer = bytes.clone();
    longer.push(0);
    assert!(rejected(&longer));
    let mut miscounted = bytes.clone();
    miscounted[50] = 3;
    assert!(rejected(&miscounted));
    let mut huge = bytes.clone();
    huge[53] = 0xff;
    assert!(rejected(&huge));
}
