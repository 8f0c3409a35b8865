//! The six instructions and their form on the wire: one byte that tells
//! the kind, then the fields in a fixed order, integers lowest byte first.

use crate::error::CasinoError;
use crate::game::bool_byte;
use crate::wire::{
    get_bytes32, get_le, le_bytes, le_value, lemma_le_bytes_len, lemma_le_bytes_of_value,
    lemma_le_value_bound, lemma_le_value_of_bytes, lemma_pow256_values, pow256, put_bytes, put_le,
};
use vstd::prelude::*;

verus! {

/// An instruction to the engine.
#[derive(Clone, Copy, Debug, PartialEq, Eq)]
#[allow(inconsistent_fields)]
pub enum CasinoInstruction {
    /// Creates the configuration record of the signing authority.
    ///
    /// Records: the authority (signer), the configuration record, the
    /// storage allocator.
    Initialize {
        /// The house edge in basis points.
        house_edge: u16,
        /// The lowest bet taken.
        min_bet: u64,
        /// The highest bet taken.
        max_bet: u64,
    },
    /// Places a bet and escrows the stake under a new game record.
    ///
    /// Records: the player (signer), the configuration record, the game
    /// record, the storage allocator.
    PlaceBet {
        /// The identifier of the wager, from which its record's address
        /// is derived.
        game_id: [u8; 32],
        /// The stake.
        bet_amount: u64,
    },
    /// Settles a wager and pays the player out of the escrow.
    ///
    /// Records: the operator (signer), the configuration record, the game
    /// record, the player, the storage allocator.
    SettleGame {
        /// Whether the player won.
        is_win: bool,
        /// What the player is paid.
        win_amount: u64,
        /// The hash by which the result can be checked.
        result_hash: [u8; 32],
    },
    /// Changes the parameters that are given.
    ///
    /// Records: the authority (signer), the configuration record.
    UpdateParams {
        /// The new house edge in basis points.
        house_edge: Option<u16>,
        /// The new lowest bet.
        min_bet: Option<u64>,
        /// The new highest bet.
        max_bet: Option<u64>,
    },
    /// Lets one more identity settle wagers.
    ///
    /// Records: the authority (signer), the configuration record, the
    /// operator to add.
    AddOperator,
    /// Withdraws an identity's leave to settle wagers.
    ///
    /// Records: the authority (signer), the configuration record, the
    /// operator to remove.
    RemoveOperator,
}

/// The bytes of a house edge that may be absent: a zero byte for none, a
/// one byte and the edge in two bytes for one.
pub open spec fn option_u16_bytes(value: Option<u16>) -> Seq<u8> {
    match value {
        None => seq![0u8],
        Some(present) => seq![1u8] + le_bytes(present as nat, 2),
    }
}

/// The bytes of an amount that may be absent: a zero byte for none, a one
/// byte and the amount in eight bytes for one.
pub open spec fn option_u64_bytes(value: Option<u64>) -> Seq<u8> {
    match value {
        None => seq![0u8],
        Some(present) => seq![1u8] + le_bytes(present as nat, 8),
    }
}

impl CasinoInstruction {
    /// The byte that tells the kind of the instruction.
    pub open spec fn tag(self) -> u8 {
        match self {
            CasinoInstruction::Initialize { .. } => 0,
            CasinoInstruction::PlaceBet { .. } => 1,
            CasinoInstruction::SettleGame { .. } => 2,
            CasinoInstruction::UpdateParams { .. } => 3,
            CasinoInstruction::AddOperator => 4,
            CasinoInstruction::RemoveOperator => 5,
        }
    }

    /// The bytes of the instruction.
    pub open spec fn encoding(self) -> Seq<u8> {
        match self {
            CasinoInstruction::Initialize { house_edge, min_bet, max_bet } => seq![0u8] + le_bytes(
                house_edge as nat,
                2,
            ) + le_bytes(min_bet as nat, 8) + le_bytes(max_bet as nat, 8),
            CasinoInstruction::PlaceBet { game_id, bet_amount } => seq![1u8] + game_id@ + le_bytes(
                bet_amount as nat,
                8,
            ),
            CasinoInstruction::SettleGame { is_win, win_amount, result_hash } => seq![
                2u8,
                bool_byte(is_win),
            ] + le_bytes(win_amount as nat, 8) + result_hash@,
            CasinoInstruction::UpdateParams { house_edge, min_bet, max_bet } => seq![3u8]
                + option_u16_bytes(house_edge) + option_u64_bytes(min_bet) + option_u64_bytes(
                max_bet,
            ),
            CasinoInstruction::AddOperator => seq![4u8],
            CasinoInstruction::RemoveOperator => seq![5u8],
        }
    }

    /// The instruction that these bytes hold, if they hold one.
    pub open spec fn decoded(data: Seq<u8>) -> Option<CasinoInstruction> {
        if exists|instruction: CasinoInstruction| instruction.encoding() == data {
            Some(choose|instruction: CasinoInstruction| instruction.encoding() == data)
        } else {
            None
        }
    }
}


/// An optional number as it is read from the front of `bytes`, with the
/// count of bytes it takes: a zero byte, or a one byte and `width` bytes.
spec fn option_front(bytes: Seq<u8>, width: nat) -> Option<(Option<nat>, nat)> {
    if bytes.len() >= 1 && bytes[0] == 0 {
        Some((None, 1))
    } else if bytes.len() >= 1 + width && bytes[0] == 1 {
        Some((Some(le_value(bytes.subrange(1, 1 + width as int))), 1 + width))
    } else {
        None
    }
}

/// An optional house edge as an optional number.
spec fn widened16(value: Option<u16>) -> Option<nat> {
    match value {
        None => None,
        Some(present) => Some(present as nat),
    }
}

/// An optional amount as an optional number.
spec fn widened64(value: Option<u64>) -> Option<nat> {
    match value {
        None => None,
        Some(present) => Some(present as nat),
    }
}

/// An optional house edge is read back from the front of what follows it.
proof fn lemma_option_u16_front(value: Option<u16>, rest: Seq<u8>)
    ensures
        option_u16_bytes(value).len() == if value is Some { 3nat } else { 1nat },
        option_front(option_u16_bytes(value) + rest, 2) == Some(
            (widened16(value), option_u16_bytes(value).len()),
        ),
        (option_u16_bytes(value) + rest).skip(option_u16_bytes(value).len() as int) == rest,
{
    let own = option_u16_bytes(value);
    let bytes = own + rest;
    lemma_pow256_values();
    if let Some(present) = value {
        lemma_le_bytes_len(present as nat, 2);
        lemma_le_value_of_bytes(present as nat, 2);
        assert(bytes.subrange(1, 3) =~= le_bytes(present as nat, 2));
    }
    assert(bytes.skip(own.len() as int) =~= rest);
}

/// An optional amount is read back from the front of what follows it.
proof fn lemma_option_u64_front(value: Option<u64>, rest: Seq<u8>)
    ensures
        option_u64_bytes(value).len() == if value is Some { 9nat } else { 1nat },
        option_front(option_u64_bytes(value) + rest, 8) == Some(
            (widened64(value), option_u64_bytes(value).len()),
        ),
        (option_u64_bytes(value) + rest).skip(option_u64_bytes(value).len() as int) == rest,
{
    let own = option_u64_bytes(value);
    let bytes = own + rest;
    lemma_pow256_values();
    if let Some(present) = value {
        lemma_le_bytes_len(present as nat, 8);
        lemma_le_value_of_bytes(present as nat, 8);
        assert(bytes.subrange(1, 9) =~= le_bytes(present as nat, 8));
    }
    assert(bytes.skip(own.len() as int) =~= rest);
}

/// What is read from the front of bytes is written as those bytes.
proof fn lemma_option_front_bytes(bytes: Seq<u8>, width: nat)
    requires
        option_front(bytes, width) is Some,
    ensures
        ({
            let (value, taken) = option_front(bytes, width)->Some_0;
            &&& 1 <= taken <= bytes.len()
            &&& value is None ==> bytes.subrange(0, taken as int) == seq![0u8]
            &&& value is Some ==> value->Some_0 < pow256(width) && bytes.subrange(0, taken as int)
                == seq![1u8] + le_bytes(value->Some_0, width)
        }),
{
    let (value, taken) = option_front(bytes, width)->Some_0;
    if value is None {
        assert(bytes.subrange(0, 1) =~= seq![0u8]);
    } else {
        let field = bytes.subrange(1, 1 + width as int);
        lemma_le_value_bound(field);
        lemma_le_bytes_of_value(field);
        assert(bytes.subrange(0, taken as int) =~= seq![1u8] + field);
    }
}

/// Reads an optional number of `width` bytes from `data` at `at`, and
/// tells where the next field begins.
fn take_option(data: &[u8], at: usize, width: usize) -> (taken: Option<(Option<u64>, usize)>)
    requires
        at <= data@.len(),
        1 <= width <= 8,
    ensures
        match taken {
            Some((value, next)) => at < next <= data@.len() && option_front(
                data@.skip(at as int),
                width as nat,
            ) == Some((widened64(value), (next - at) as nat)),
            None => option_front(data@.skip(at as int), width as nat) is None,
        },
{
    let len: usize = data.len();
    if at >= len {
        return None;
    }
    let flag: u8 = data[at];
    if flag == 0 {
        Some((None, at + 1))
    } else if flag == 1 && len - at > width {
        let value: u64 = get_le(data, at + 1, width);
        proof {
            assert(data@.skip(at as int).subrange(1, 1 + width) =~= data@.subrange(
                at + 1,
                at + 1 + width,
            ));
        }
        Some((Some(value), at + 1 + width))
    } else {
        None
    }
}

impl CasinoInstruction {
    /// The form of an instruction's bytes: the kind comes first, and the
    /// kind settles the length where no field may be absent.
    pub proof fn lemma_encoding_shape(self)
        ensures
            self.encoding().len() >= 1,
            self.encoding()[0] == self.tag(),
            self is Initialize ==> self.encoding().len() == 19,
            self is PlaceBet ==> self.encoding().len() == 41,
            self is SettleGame ==> self.encoding().len() == 42 && self.encoding()[1] <= 1,
            self is UpdateParams ==> 4 <= self.encoding().len() <= 22,
            self is AddOperator || self is RemoveOperator ==> self.encoding().len() == 1,
    {
        match self {
            CasinoInstruction::Initialize { house_edge, min_bet, max_bet } => {
                lemma_le_bytes_len(house_edge as nat, 2);
                lemma_le_bytes_len(min_bet as nat, 8);
                lemma_le_bytes_len(max_bet as nat, 8);
            },
            CasinoInstruction::PlaceBet { game_id, bet_amount } => {
                lemma_le_bytes_len(bet_amount as nat, 8);
            },
            CasinoInstruction::SettleGame { is_win, win_amount, result_hash } => {
                lemma_le_bytes_len(win_amount as nat, 8);
            },
            CasinoInstruction::UpdateParams { house_edge, min_bet, max_bet } => {
                lemma_option_u16_front(house_edge, Seq::empty());
                lemma_option_u64_front(min_bet, Seq::empty());
                lemma_option_u64_front(max_bet, Seq::empty());
            },
            _ => {},
        }
    }

    /// How the fields of an update are read back one after the other.
    proof fn lemma_update_layout(
        house_edge: Option<u16>,
        min_bet: Option<u64>,
        max_bet: Option<u64>,
    )
        ensures
            ({
                let data = (CasinoInstruction::UpdateParams {
                    house_edge,
                    min_bet,
                    max_bet,
                }).encoding();
                let first = 1 + option_u16_bytes(house_edge).len();
                let second = first + option_u64_bytes(min_bet).len();
                let third = second + option_u64_bytes(max_bet).len();
                &&& option_front(data.skip(1), 2) == Some(
                    (widened16(house_edge), (first - 1) as nat),
                )
                &&& option_front(data.skip(first as int), 8) == Some(
                    (widened64(min_bet), (second - first) as nat),
                )
                &&& option_front(data.skip(second as int), 8) == Some(
                    (widened64(max_bet), (third - second) as nat),
                )
                &&& data.len() == third
            }),
    {
        let data = (CasinoInstruction::UpdateParams { house_edge, min_bet, max_bet }).encoding();
        let edge = option_u16_bytes(house_edge);
        let min = option_u64_bytes(min_bet);
        let max = option_u64_bytes(max_bet);
        lemma_option_u16_front(house_edge, min + max);
        lemma_option_u64_front(min_bet, max);
        lemma_option_u64_front(max_bet, Seq::empty());
        assert(data.skip(1) =~= edge + (min + max));
        assert(data.skip(1 + edge.len() as int) =~= min + max);
        assert(data.skip(1 + edge.len() as int + min.len() as int) =~= max + Seq::<u8>::empty());
    }

    /// Instructions with the same bytes are the same instruction.
    pub proof fn lemma_encoding_injective(self, other: CasinoInstruction)
        requires
            self.encoding() == other.encoding(),
        ensures
            self == other,
    {
        self.lemma_encoding_shape();
        other.lemma_encoding_shape();
        lemma_pow256_values();
        let data = self.encoding();
        match (self, other) {
            (
                CasinoInstruction::Initialize { house_edge: e1, min_bet: l1, max_bet: h1 },
                CasinoInstruction::Initialize { house_edge: e2, min_bet: l2, max_bet: h2 },
            ) => {
                lemma_le_bytes_len(e1 as nat, 2);
                lemma_le_bytes_len(l1 as nat, 8);
                lemma_le_bytes_len(h1 as nat, 8);
                lemma_le_bytes_len(e2 as nat, 2);
                lemma_le_bytes_len(l2 as nat, 8);
                lemma_le_bytes_len(h2 as nat, 8);
                assert(data.subrange(1, 3) =~= le_bytes(e1 as nat, 2));
                assert(data.subrange(1, 3) =~= le_bytes(e2 as nat, 2));
                assert(data.subrange(3, 11) =~= le_bytes(l1 as nat, 8));
                assert(data.subrange(3, 11) =~= le_bytes(l2 as nat, 8));
                assert(data.subrange(11, 19) =~= le_bytes(h1 as nat, 8));
                assert(data.subrange(11, 19) =~= le_bytes(h2 as nat, 8));
                lemma_le_value_of_bytes(e1 as nat, 2);
                lemma_le_value_of_bytes(e2 as nat, 2);
                lemma_le_value_of_bytes(l1 as nat, 8);
                lemma_le_value_of_bytes(l2 as nat, 8);
                lemma_le_value_of_bytes(h1 as nat, 8);
                lemma_le_value_of_bytes(h2 as nat, 8);
            },
            (
                CasinoInstruction::PlaceBet { game_id: g1, bet_amount: b1 },
                CasinoInstruction::PlaceBet { game_id: g2, bet_amount: b2 },
            ) => {
                lemma_le_bytes_len(b1 as nat, 8);
                lemma_le_bytes_len(b2 as nat, 8);
                assert(data.subrange(1, 33) =~= g1@);
                assert(data.subrange(1, 33) =~= g2@);
                assert(g1 =~= g2);
                assert(data.subrange(33, 41) =~= le_bytes(b1 as nat, 8));
                assert(data.subrange(33, 41) =~= le_bytes(b2 as nat, 8));
                lemma_le_value_of_bytes(b1 as nat, 8);
                lemma_le_value_of_bytes(b2 as nat, 8);
            },
            (
                CasinoInstruction::SettleGame { is_win: w1, win_amount: a1, result_hash: r1 },
                CasinoInstruction::SettleGame { is_win: w2, win_amount: a2, result_hash: r2 },
            ) => {
                lemma_le_bytes_len(a1 as nat, 8);
                lemma_le_bytes_len(a2 as nat, 8);
                assert(data[1] == bool_byte(w1));
                assert(data[1] == bool_byte(w2));
                assert(data.subrange(2, 10) =~= le_bytes(a1 as nat, 8));
                assert(data.subrange(2, 10) =~= le_bytes(a2 as nat, 8));
                lemma_le_value_of_bytes(a1 as nat, 8);
                lemma_le_value_of_bytes(a2 as nat, 8);
                assert(data.subrange(10, 42) =~= r1@);
                assert(data.subrange(10, 42) =~= r2@);
                assert(r1 =~= r2);
            },
            (
                CasinoInstruction::UpdateParams { house_edge: e1, min_bet: l1, max_bet: h1 },
                CasinoInstruction::UpdateParams { house_edge: e2, min_bet: l2, max_bet: h2 },
            ) => {
                CasinoInstruction::lemma_update_layout(e1, l1, h1);
                CasinoInstruction::lemma_update_layout(e2, l2, h2);
            },
            _ => {},
        }
    }

    /// Reading an instruction's bytes gives the instruction, and what is
    /// read from bytes is written as those bytes.
    pub proof fn lemma_decoded(self, data: Seq<u8>)
        ensures
            CasinoInstruction::decoded(self.encoding()) == Some(self),
            CasinoInstruction::decoded(data) == Some(self) ==> self.encoding() == data,
    {
        let found = CasinoInstruction::decoded(self.encoding())->Some_0;
        found.lemma_encoding_injective(self);
    }
}


/// Appends an optional house edge to `out`.
fn put_option_u16(out: &mut Vec<u8>, value: Option<u16>)
    ensures
        final(out)@ == old(out)@ + option_u16_bytes(value),
{
    match value {
        None => {
            out.push(0u8);
            proof {
                assert(out@ =~= old(out)@ + option_u16_bytes(value));
            }
        },
        Some(present) => {
            out.push(1u8);
            put_le(out, present as u64, 2);
            proof {
                assert(out@ =~= old(out)@ + option_u16_bytes(value));
            }
        },
    }
}

/// Appends an optional amount to `out`.
fn put_option_u64(out: &mut Vec<u8>, value: Option<u64>)
    ensures
        final(out)@ == old(out)@ + option_u64_bytes(value),
{
    match value {
        None => {
            out.push(0u8);
            proof {
                assert(out@ =~= old(out)@ + option_u64_bytes(value));
            }
        },
        Some(present) => {
            out.push(1u8);
            put_le(out, present, 8);
            proof {
                assert(out@ =~= old(out)@ + option_u64_bytes(value));
            }
        },
    }
}

/// Reads the fields of an `Initialize` that follow the kind.
fn read_initialize(data: &[u8]) -> (read: Option<CasinoInstruction>)
    requires
        data@.len() >= 1,
        data@[0] == 0,
    ensures
        read == CasinoInstruction::decoded(data@),
{
    if data.len() != 19 {
        proof {
            assert forall|instruction: CasinoInstruction| instruction.encoding() != data@ by {
                instruction.lemma_encoding_shape();
            }
        }
        return None;
    }
    let edge: u64 = get_le(data, 1, 2);
    proof {
        lemma_le_value_bound(data@.subrange(1, 3));
        lemma_pow256_values();
    }
    let instruction = CasinoInstruction::Initialize {
        house_edge: edge as u16,
        min_bet: get_le(data, 3, 8),
        max_bet: get_le(data, 11, 8),
    };
    proof {
        lemma_le_bytes_of_value(data@.subrange(1, 3));
        lemma_le_bytes_of_value(data@.subrange(3, 11));
        lemma_le_bytes_of_value(data@.subrange(11, 19));
        assert(instruction.encoding() =~= seq![data@[0]] + data@.subrange(1, 3) + data@.subrange(
            3,
            11,
        ) + data@.subrange(11, 19));
        assert(instruction.encoding() =~= data@);
        instruction.lemma_decoded(data@);
    }
    Some(instruction)
}

/// Reads the fields of a `PlaceBet` that follow the kind.
fn read_place_bet(data: &[u8]) -> (read: Option<CasinoInstruction>)
    requires
        data@.len() >= 1,
        data@[0] == 1,
    ensures
        read == CasinoInstruction::decoded(data@),
{
    if data.len() != 41 {
        proof {
            assert forall|instruction: CasinoInstruction| instruction.encoding() != data@ by {
                instruction.lemma_encoding_shape();
            }
        }
        return None;
    }
    let instruction = CasinoInstruction::PlaceBet {
        game_id: get_bytes32(data, 1),
        bet_amount: get_le(data, 33, 8),
    };
    proof {
        lemma_le_bytes_of_value(data@.subrange(33, 41));
        assert(instruction.encoding() =~= seq![data@[0]] + data@.subrange(1, 33) + data@.subrange(
            33,
            41,
        ));
        assert(instruction.encoding() =~= data@);
        instruction.lemma_decoded(data@);
    }
    Some(instruction)
}

/// Reads the fields of a `SettleGame` that follow the kind.
fn read_settle_game(data: &[u8]) -> (read: Option<CasinoInstruction>)
    requires
        data@.len() >= 1,
        data@[0] == 2,
    ensures
        read == CasinoInstruction::decoded(data@),
{
    if data.len() != 42 || data[1] > 1 {
        proof {
            assert forall|instruction: CasinoInstruction| instruction.encoding() != data@ by {
                instruction.lemma_encoding_shape();
            }
        }
        return None;
    }
    let instruction = CasinoInstruction::SettleGame {
        is_win: data[1] == 1,
        win_amount: get_le(data, 2, 8),
        result_hash: get_bytes32(data, 10),
    };
    proof {
        lemma_le_bytes_of_value(data@.subrange(2, 10));
        assert(instruction.encoding() =~= seq![data@[0], data@[1]] + data@.subrange(2, 10)
            + data@.subrange(10, 42));
        assert(instruction.encoding() =~= data@);
        instruction.lemma_decoded(data@);
    }
    Some(instruction)
}

/// No update has bytes whose fields cannot be read one after the other.
proof fn lemma_no_update(data: Seq<u8>)
    requires
        data.len() >= 1,
        data[0] == 3,
        ({
            let edge = option_front(data.skip(1), 2);
            let first = 1 + edge->Some_0.1;
            let min = option_front(data.skip(first as int), 8);
            let second = first + min->Some_0.1;
            let max = option_front(data.skip(second as int), 8);
            let third = second + max->Some_0.1;
            ||| edge is None
            ||| min is None
            ||| max is None
            ||| third != data.len()
        }),
    ensures
        CasinoInstruction::decoded(data) is None,
{
    assert forall|instruction: CasinoInstruction| instruction.encoding() != data by {
        instruction.lemma_encoding_shape();
        if let CasinoInstruction::UpdateParams { house_edge, min_bet, max_bet } = instruction {
            CasinoInstruction::lemma_update_layout(house_edge, min_bet, max_bet);
        }
    }
}

/// Reads the fields of an `UpdateParams` that follow the kind.
fn read_update_params(data: &[u8]) -> (read: Option<CasinoInstruction>)
    requires
        data@.len() >= 1,
        data@[0] == 3,
    ensures
        read == CasinoInstruction::decoded(data@),
{
    let (edge, first) = match take_option(data, 1, 2) {
        Some(taken) => taken,
        None => {
            proof {
                lemma_no_update(data@);
            }
            return None;
        },
    };
    let (min_bet, second) = match take_option(data, first, 8) {
        Some(taken) => taken,
        None => {
            proof {
                lemma_no_update(data@);
            }
            return None;
        },
    };
    let (max_bet, third) = match take_option(data, second, 8) {
        Some(taken) => taken,
        None => {
            proof {
                lemma_no_update(data@);
            }
            return None;
        },
    };
    if third != data.len() {
        proof {
            lemma_no_update(data@);
        }
        return None;
    }
    proof {
        lemma_option_front_bytes(data@.skip(1), 2);
        lemma_option_front_bytes(data@.skip(first as int), 8);
        lemma_option_front_bytes(data@.skip(second as int), 8);
        lemma_pow256_values();
    }
    let house_edge: Option<u16> = match edge {
        Some(present) => Some(present as u16),
        None => None,
    };
    let instruction = CasinoInstruction::UpdateParams { house_edge, min_bet, max_bet };
    proof {
        assert(data@.skip(1).subrange(0, first - 1) =~= data@.subrange(1, first as int));
        assert(data@.skip(first as int).subrange(0, second - first) =~= data@.subrange(
            first as int,
            second as int,
        ));
        assert(data@.skip(second as int).subrange(0, third - second) =~= data@.subrange(
            second as int,
            third as int,
        ));
        assert(option_u16_bytes(house_edge) == data@.subrange(1, first as int));
        assert(option_u64_bytes(min_bet) == data@.subrange(first as int, second as int));
        assert(option_u64_bytes(max_bet) == data@.subrange(second as int, third as int));
        assert(instruction.encoding() =~= seq![data@[0]] + data@.subrange(1, first as int)
            + data@.subrange(first as int, second as int) + data@.subrange(
            second as int,
            third as int,
        ));
        assert(instruction.encoding() =~= data@);
        instruction.lemma_decoded(data@);
    }
    Some(instruction)
}

impl CasinoInstruction {
    /// Writes the instruction.  This never fails.
    pub fn try_to_vec(&self) -> (written: Result<Vec<u8>, CasinoError>)
        ensures
            written is Ok,
            written->Ok_0@ == self.encoding(),
    {
        let mut out: Vec<u8> = Vec::new();
        match self {
            CasinoInstruction::Initialize { house_edge, min_bet, max_bet } => {
                out.push(0u8);
                put_le(&mut out, *house_edge as u64, 2);
                put_le(&mut out, *min_bet, 8);
                put_le(&mut out, *max_bet, 8);
            },
            CasinoInstruction::PlaceBet { game_id, bet_amount } => {
                out.push(1u8);
                put_bytes(&mut out, game_id.as_slice());
                put_le(&mut out, *bet_amount, 8);
            },
            CasinoInstruction::SettleGame { is_win, win_amount, result_hash } => {
                out.push(2u8);
                out.push(if *is_win { 1u8 } else { 0u8 });
                put_le(&mut out, *win_amount, 8);
                put_bytes(&mut out, result_hash.as_slice());
            },
            CasinoInstruction::UpdateParams { house_edge, min_bet, max_bet } => {
                out.push(3u8);
                put_option_u16(&mut out, *house_edge);
                put_option_u64(&mut out, *min_bet);
                put_option_u64(&mut out, *max_bet);
            },
            CasinoInstruction::AddOperator => {
                out.push(4u8);
            },
            CasinoInstruction::RemoveOperator => {
                out.push(5u8);
            },
        }
        proof {
            assert(out@ =~= self.encoding());
        }
        Ok(out)
    }

    /// Reads an instruction.  The bytes must be an instruction's bytes
    /// from the first to the last.
    pub fn try_from_slice(data: &[u8]) -> (read: Result<CasinoInstruction, CasinoError>)
        ensures
            match read {
                Ok(instruction) => CasinoInstruction::decoded(data@) == Some(instruction),
                Err(error) => CasinoInstruction::decoded(data@) is None && error
                    == CasinoError::InvalidInstruction,
            },
    {
        if data.len() == 0 || data[0] > 5 {
            proof {
                assert forall|instruction: CasinoInstruction| instruction.encoding() != data@ by {
                    instruction.lemma_encoding_shape();
                }
            }
            return Err(CasinoError::InvalidInstruction);
        }
        let kind: u8 = data[0];
        let read: Option<CasinoInstruction> = if kind == 0 {
            read_initialize(data)
        } else if kind == 1 {
            read_place_bet(data)
        } else if kind == 2 {
            read_settle_game(data)
        } else if kind == 3 {
            read_update_params(data)
        } else if data.len() != 1 {
            proof {
                assert forall|instruction: CasinoInstruction| instruction.encoding() != data@ by {
                    instruction.lemma_encoding_shape();
                }
            }
            None
        } else {
            let instruction = if kind == 4 {
                CasinoInstruction::AddOperator
            } else {
                CasinoInstruction::RemoveOperator
            };
            proof {
                assert(instruction.encoding() =~= data@);
                instruction.lemma_decoded(data@);
            }
            Some(instruction)
        };
        match read {
            Some(instruction) => Ok(instruction),
            None => Err(CasinoError::InvalidInstruction),
        }
    }
}

} // verus!
