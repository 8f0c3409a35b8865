//! The record of one wager, from the bet to its settlement.

use crate::address::Address;
use crate::casino::{CasinoModel, CasinoState};
use crate::error::CasinoError;
use crate::payout::{max_payout, max_payout_spec};
use crate::validation::{bet_admitted, validate_bet_amount};
use crate::wire::{
    get_bytes32, get_le, le_bytes, lemma_le_bytes_len, lemma_le_bytes_of_value,
    lemma_le_value_of_bytes, lemma_pow256_values, put_bytes, put_le,
};
use vstd::prelude::*;

verus! {

/// The record of a wager.  It is open from the bet until it is settled,
/// and settled for good after that.
#[derive(Clone, Copy, Debug, PartialEq, Eq)]
pub struct GameState {
    /// Who placed the bet.
    pub player: Address,
    /// The stake.
    pub bet_amount: u64,
    /// Whether the wager has been settled.
    pub is_settled: bool,
    /// Whether the player won; says nothing before settlement.
    pub is_win: bool,
    /// What the player was paid; says nothing before settlement.
    pub win_amount: u64,
    /// The hash by which the result can be checked.
    pub result_hash: [u8; 32],
}

/// The length of a game record.
pub const GAME_LEN: usize = 82;

/// The byte that stands for a truth value.
pub open spec fn bool_byte(value: bool) -> u8 {
    if value {
        1
    } else {
        0
    }
}

impl GameState {
    /// The bytes of the record: the player, the stake in eight bytes, one
    /// byte each for the two flags, the payout in eight bytes and the
    /// result hash, integers lowest byte first.
    pub open spec fn encoding(self) -> Seq<u8> {
        self.player@ + le_bytes(self.bet_amount as nat, 8) + seq![
            bool_byte(self.is_settled),
            bool_byte(self.is_win),
        ] + le_bytes(self.win_amount as nat, 8) + self.result_hash@
    }

    /// The record that these bytes hold, if they hold one.
    pub open spec fn decoded(data: Seq<u8>) -> Option<GameState> {
        if exists|game: GameState| game.encoding() == data {
            Some(choose|game: GameState| game.encoding() == data)
        } else {
            None
        }
    }

    /// The record of a wager that has just been placed.
    pub open spec fn opened(player: Address, bet_amount: u64) -> GameState {
        GameState {
            player,
            bet_amount,
            is_settled: false,
            is_win: false,
            win_amount: 0,
            result_hash: crate::address::ZERO,
        }
    }

    /// What placing a bet leads to: the bet must be admitted by the
    /// configuration, and the player's balance must cover it.
    pub open spec fn placed(config: CasinoModel, player: Address, bet_amount: u64, balance: u64) -> Result<
        GameState,
        CasinoError,
    > {
        if !bet_admitted(bet_amount, config.min_bet, config.max_bet) {
            Err(CasinoError::InvalidBetAmount)
        } else if balance < bet_amount {
            Err(CasinoError::InsufficientFunds)
        } else {
            Ok(GameState::opened(player, bet_amount))
        }
    }

    /// What settling leads to.  The wager must be open and `player` the
    /// one who placed it; a win must stay within the highest payout that
    /// the stake admits under the configuration's house edge.
    pub open spec fn settled(
        self,
        config: CasinoModel,
        player: Address,
        is_win: bool,
        win_amount: u64,
        result_hash: [u8; 32],
    ) -> Result<GameState, CasinoError> {
        let bound = max_payout_spec(self.bet_amount, config.house_edge);
        if self.is_settled {
            Err(CasinoError::GameAlreadySettled)
        } else if player != self.player {
            Err(CasinoError::AddressMismatch)
        } else if is_win && bound is Err {
            Err(bound->Err_0)
        } else if is_win && win_amount > bound->Ok_0 {
            Err(CasinoError::ExpectedAmountMismatch)
        } else {
            Ok(GameState { is_settled: true, is_win, win_amount, result_hash, ..self })
        }
    }

    /// What a settlement moves from the escrow to the player.
    pub open spec fn payout(is_win: bool, win_amount: u64) -> u64 {
        if is_win {
            win_amount
        } else {
            0
        }
    }

    /// Where each field lies in the bytes of a record.
    pub proof fn lemma_encoding_layout(self)
        ensures
            self.encoding().len() == GAME_LEN,
            self.encoding().subrange(0, 32) == self.player@,
            self.encoding().subrange(32, 40) == le_bytes(self.bet_amount as nat, 8),
            self.encoding()[40] == bool_byte(self.is_settled),
            self.encoding()[41] == bool_byte(self.is_win),
            self.encoding().subrange(42, 50) == le_bytes(self.win_amount as nat, 8),
            self.encoding().subrange(50, 82) == self.result_hash@,
    {
        lemma_le_bytes_len(self.bet_amount as nat, 8);
        lemma_le_bytes_len(self.win_amount as nat, 8);
        let bytes = self.encoding();
        assert(bytes.subrange(0, 32) =~= self.player@);
        assert(bytes.subrange(32, 40) =~= le_bytes(self.bet_amount as nat, 8));
        assert(bytes.subrange(42, 50) =~= le_bytes(self.win_amount as nat, 8));
        assert(bytes.subrange(50, 82) =~= self.result_hash@);
    }

    /// Records with the same bytes are the same record.
    pub proof fn lemma_encoding_injective(self, other: GameState)
        requires
            self.encoding() == other.encoding(),
        ensures
            self == other,
    {
        self.lemma_encoding_layout();
        other.lemma_encoding_layout();
        lemma_pow256_values();
        self.player.lemma_same_view(other.player);
        lemma_le_value_of_bytes(self.bet_amount as nat, 8);
        lemma_le_value_of_bytes(other.bet_amount as nat, 8);
        lemma_le_value_of_bytes(self.win_amount as nat, 8);
        lemma_le_value_of_bytes(other.win_amount as nat, 8);
        assert(self.result_hash =~= other.result_hash);
    }

    /// Reading a record's bytes gives the record, and what is read from
    /// bytes is written as those bytes.
    pub proof fn lemma_decoded(self, data: Seq<u8>)
        ensures
            GameState::decoded(self.encoding()) == Some(self),
            GameState::decoded(data) == Some(self) ==> self.encoding() == data,
    {
        let found = GameState::decoded(self.encoding())->Some_0;
        found.lemma_encoding_injective(self);
    }

    /// Writes the record.  This never fails.
    pub fn try_to_vec(&self) -> (written: Result<Vec<u8>, CasinoError>)
        ensures
            written is Ok,
            written->Ok_0@ == self.encoding(),
    {
        let mut out: Vec<u8> = Vec::new();
        put_bytes(&mut out, self.player.bytes.as_slice());
        put_le(&mut out, self.bet_amount, 8);
        out.push(if self.is_settled { 1u8 } else { 0u8 });
        out.push(if self.is_win { 1u8 } else { 0u8 });
        put_le(&mut out, self.win_amount, 8);
        put_bytes(&mut out, self.result_hash.as_slice());
        proof {
            assert(out@ =~= self.encoding());
        }
        Ok(out)
    }

    /// Reads a record.  The bytes must be a record's bytes from the first
    /// to the last; where they are not, there is no wager to be found.
    pub fn try_from_slice(data: &[u8]) -> (read: Result<GameState, CasinoError>)
        ensures
            match read {
                Ok(game) => GameState::decoded(data@) == Some(game),
                Err(error) => GameState::decoded(data@) is None && error
                    == CasinoError::GameNotFound,
            },
    {
        if data.len() != GAME_LEN {
            proof {
                assert forall|game: GameState| game.encoding() != data@ by {
                    game.lemma_encoding_layout();
                }
            }
            return Err(CasinoError::GameNotFound);
        }
        let settled_byte: u8 = data[40];
        let win_byte: u8 = data[41];
        if settled_byte > 1 || win_byte > 1 {
            proof {
                assert forall|game: GameState| game.encoding() != data@ by {
                    game.lemma_encoding_layout();
                }
            }
            return Err(CasinoError::GameNotFound);
        }
        let game = GameState {
            player: Address { bytes: get_bytes32(data, 0) },
            bet_amount: get_le(data, 32, 8),
            is_settled: settled_byte == 1,
            is_win: win_byte == 1,
            win_amount: get_le(data, 42, 8),
            result_hash: get_bytes32(data, 50),
        };
        proof {
            lemma_le_bytes_of_value(data@.subrange(32, 40));
            lemma_le_bytes_of_value(data@.subrange(42, 50));
            assert(game.encoding() =~= data@.subrange(0, 32) + data@.subrange(32, 40) + seq![
                data@[40],
                data@[41],
            ] + data@.subrange(42, 50) + data@.subrange(50, 82));
            assert(game.encoding() =~= data@);
            game.lemma_decoded(data@);
        }
        Ok(game)
    }

    /// Opens the record of a bet, once the configuration admits the bet
    /// and the player's balance covers it.
    pub fn place(config: &CasinoState, player: Address, bet_amount: u64, balance: u64) -> (made:
        Result<GameState, CasinoError>)
        ensures
            made == GameState::placed(config@, player, bet_amount, balance),
    {
        if let Err(error) = validate_bet_amount(bet_amount, config.min_bet, config.max_bet) {
            return Err(error);
        }
        if balance < bet_amount {
            return Err(CasinoError::InsufficientFunds);
        }
        Ok(
            GameState {
                player,
                bet_amount,
                is_settled: false,
                is_win: false,
                win_amount: 0,
                result_hash: crate::address::ZERO,
            },
        )
    }

    /// Settles the wager.  Where the settlement is rejected, the record
    /// stays as it was.
    pub fn settle(
        &mut self,
        config: &CasinoState,
        player: &Address,
        is_win: bool,
        win_amount: u64,
        result_hash: [u8; 32],
    ) -> (done: Result<(), CasinoError>)
        ensures
            match done {
                Ok(()) => old(self).settled(config@, *player, is_win, win_amount, result_hash)
                    == Ok::<GameState, CasinoError>(*final(self)),
                Err(error) => old(self).settled(config@, *player, is_win, win_amount, result_hash)
                    == Err::<GameState, CasinoError>(error) && *final(self) == *old(self),
            },
    {
        if self.is_settled {
            return Err(CasinoError::GameAlreadySettled);
        }
        if *player != self.player {
            return Err(CasinoError::AddressMismatch);
        }
        if is_win {
            match max_payout(self.bet_amount, config.house_edge) {
                Ok(bound) => {
                    if win_amount > bound {
                        return Err(CasinoError::ExpectedAmountMismatch);
                    }
                },
                Err(error) => {
                    return Err(error);
                },
            }
        }
        self.is_settled = true;
        self.is_win = is_win;
        self.win_amount = win_amount;
        self.result_hash = result_hash;
        Ok(())
    }
}

} // verus!
