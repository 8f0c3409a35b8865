//! What holds of the engine as a whole: the rules that every instruction
//! obeys, stated over what the handlers lead to.

use crate::address::Address;
use crate::casino::{lemma_others_members, CasinoModel};
use crate::error::CasinoError;
use crate::game::GameState;
use crate::payout::{lemma_quotient_bounds, max_payout_spec, BASIS_POINTS, MAX_HOUSE_EDGE};
use crate::processor::{
    add_operator_outcome, initialize_outcome, place_bet_outcome, remove_operator_outcome,
    settle_game_outcome, update_params_outcome, Account, CommitModel, Transfer,
};
use crate::validation::bet_admitted;
use vstd::prelude::*;

verus! {

/// Where there is a bound, it is what the formula says: the greatest
/// amount whose product with the players' share stays within the stake
/// times 10000; and it is never below the stake.
pub proof fn law_max_payout_is_floor(bet_amount: u64, house_edge: u16)
    requires
        max_payout_spec(bet_amount, house_edge) is Ok,
    ensures
        ({
            let bound = max_payout_spec(bet_amount, house_edge)->Ok_0;
            let share = BASIS_POINTS - house_edge;
            &&& bound * share <= bet_amount * BASIS_POINTS < (bound + 1) * share
            &&& bet_amount <= bound
        }),
{
    let share: int = BASIS_POINTS - house_edge;
    let scaled: int = bet_amount * BASIS_POINTS;
    lemma_quotient_bounds(scaled, share);
    let q = scaled / share;
    assert(bet_amount <= q) by (nonlinear_arith)
        requires
            scaled < (q + 1) * share,
            scaled == bet_amount * 10000,
            0 < share <= 10000,
            0 <= q,
    ;
}

/// Without a house edge the bound is the stake itself.
pub proof fn law_max_payout_without_edge(bet_amount: u64)
    requires
        bet_amount * BASIS_POINTS <= u64::MAX,
    ensures
        max_payout_spec(bet_amount, 0) == Ok::<u64, CasinoError>(bet_amount),
{
    assert((bet_amount * 10000) / 10000 == bet_amount as int);
}

/// A casino starts out well-formed.
pub proof fn law_initial_config_is_well_formed(
    authority: Address,
    house_edge: u16,
    min_bet: u64,
    max_bet: u64,
)
    requires
        CasinoModel::initial(authority, house_edge, min_bet, max_bet) is Ok,
    ensures
        CasinoModel::initial(authority, house_edge, min_bet, max_bet)->Ok_0.wf(),
        CasinoModel::initial(authority, house_edge, min_bet, max_bet)->Ok_0.encodable(),
{
    let config = CasinoModel::initial(authority, house_edge, min_bet, max_bet)->Ok_0;
    assert(config.operators[0] == authority);
}

/// An update that is accepted leaves the configuration well-formed, and
/// touches neither the authority nor the operators.
pub proof fn law_update_keeps_config_well_formed(
    config: CasinoModel,
    house_edge: Option<u16>,
    min_bet: Option<u64>,
    max_bet: Option<u64>,
)
    requires
        config.wf(),
        config.updated(house_edge, min_bet, max_bet) is Ok,
    ensures
        config.updated(house_edge, min_bet, max_bet)->Ok_0.wf(),
        config.updated(house_edge, min_bet, max_bet)->Ok_0.authority == config.authority,
        config.updated(house_edge, min_bet, max_bet)->Ok_0.operators == config.operators,
{
}

/// An update without parameters is accepted and changes nothing.
pub proof fn law_empty_update_changes_nothing(config: CasinoModel)
    requires
        config.min_bet <= config.max_bet,
    ensures
        config.updated(None, None, None) == Ok::<CasinoModel, CasinoError>(config),
{
}

/// Adding an operator leaves the configuration well-formed and makes the
/// operator a member; adding it once more changes nothing.
pub proof fn law_add_operator_is_idempotent(config: CasinoModel, operator: Address)
    ensures
        config.with_operator(operator).is_operator(operator),
        config.with_operator(operator).with_operator(operator) == config.with_operator(operator),
        config.with_operator(operator).operators.to_set() == config.operators.to_set().insert(
            operator,
        ),
        config.wf() ==> config.with_operator(operator).wf(),
{
    let next = config.with_operator(operator);
    if !config.operators.contains(operator) {
        assert(next.operators[config.operators.len() as int] == operator);
        assert forall|who: Address| next.operators.contains(who) <==> config.operators.contains(
            who,
        ) || who == operator by {
            if next.operators.contains(who) {
                let i = choose|i: int| 0 <= i < next.operators.len() && next.operators[i] == who;
                if i < config.operators.len() {
                    assert(config.operators[i] == who);
                }
            }
            if config.operators.contains(who) {
                let i = choose|i: int|
                    0 <= i < config.operators.len() && config.operators[i] == who;
                assert(next.operators[i] == who);
            }
        }
    }
    assert(next.operators.to_set() =~= config.operators.to_set().insert(operator));
    if config.wf() {
        assert(next.operators.contains(config.authority));
    }
}

/// Removing an operator leaves the configuration well-formed and the
/// operator no member; the authority cannot be removed; removing what is
/// not a member changes nothing.
pub proof fn law_remove_operator(config: CasinoModel, operator: Address)
    ensures
        config.removed(operator) is Err <==> operator == config.authority,
        config.removed(operator) is Err ==> config.removed(operator)->Err_0
            == CasinoError::Unauthorized,
        config.removed(operator) is Ok ==> {
            let next = config.removed(operator)->Ok_0;
            &&& !next.is_operator(operator)
            &&& next.operators.to_set() == config.operators.to_set().remove(operator)
            &&& (config.wf() ==> next.wf())
            &&& (!config.is_operator(operator) ==> next == config)
        },
{
    if operator != config.authority {
        let next = config.removed(operator)->Ok_0;
        lemma_others_members(config.operators, operator);
        assert(next.operators.to_set() =~= config.operators.to_set().remove(operator));
    }
}

/// A bet that is placed lies within the bounds in force, is not zero, and
/// opens a record that is not settled.
pub proof fn law_placed_bet_is_within_bounds(
    config: CasinoModel,
    player: Address,
    bet_amount: u64,
    balance: u64,
)
    ensures
        GameState::placed(config, player, bet_amount, balance) is Ok <==> bet_admitted(
            bet_amount,
            config.min_bet,
            config.max_bet,
        ) && bet_amount <= balance,
        GameState::placed(config, player, bet_amount, balance) is Ok ==> {
            let game = GameState::placed(config, player, bet_amount, balance)->Ok_0;
            &&& config.min_bet <= game.bet_amount <= config.max_bet
            &&& game.bet_amount == bet_amount
            &&& game.player == player
            &&& !game.is_settled
        },
{
}

/// A settlement that is accepted settles the wager for good: it keeps the
/// player and the stake, records what it was given, keeps a win within
/// the highest payout, and no settlement is accepted after it.
pub proof fn law_settlement_is_final(
    game: GameState,
    config: CasinoModel,
    player: Address,
    is_win: bool,
    win_amount: u64,
    result_hash: [u8; 32],
    later_config: CasinoModel,
    later_player: Address,
    later_is_win: bool,
    later_win_amount: u64,
    later_result_hash: [u8; 32],
)
    requires
        game.settled(config, player, is_win, win_amount, result_hash) is Ok,
    ensures
        ({
            let next = game.settled(config, player, is_win, win_amount, result_hash)->Ok_0;
            &&& !game.is_settled
            &&& next.is_settled
            &&& next.player == game.player
            &&& next.bet_amount == game.bet_amount
            &&& next.is_win == is_win
            &&& next.win_amount == win_amount
            &&& next.result_hash == result_hash
            &&& is_win ==> max_payout_spec(game.bet_amount, config.house_edge) is Ok && win_amount
                <= max_payout_spec(game.bet_amount, config.house_edge)->Ok_0
            &&& next.settled(
                later_config,
                later_player,
                later_is_win,
                later_win_amount,
                later_result_hash,
            ) == Err::<GameState, CasinoError>(CasinoError::GameAlreadySettled)
        }),
{
}

/// `Initialize` with a house edge above the cap is rejected as such,
/// whatever else it asks for, once the authority has signed.
pub proof fn law_initialize_rejects_edge_above_cap(
    accounts: Seq<Account>,
    derived: Option<(Seq<u8>, u8)>,
    house_edge: u16,
    min_bet: u64,
    max_bet: u64,
)
    requires
        accounts.len() >= 3,
        accounts[0].is_signer,
        house_edge > MAX_HOUSE_EDGE,
    ensures
        initialize_outcome(accounts, derived, house_edge, min_bet, max_bet) == Err::<
            CommitModel,
            CasinoError,
        >(CasinoError::InvalidHouseEdge),
{
}

/// `Initialize` with a house edge up to the cap succeeds where the
/// bounds are in order and the vacant record at the derived address is
/// given: it creates that record and writes to it a configuration with
/// that edge, those bounds and the authority as the only operator.
pub proof fn law_initialize_accepts_edge_up_to_cap(
    accounts: Seq<Account>,
    derived: Option<(Seq<u8>, u8)>,
    house_edge: u16,
    min_bet: u64,
    max_bet: u64,
)
    requires
        accounts.len() >= 3,
        accounts[0].is_signer,
        house_edge <= MAX_HOUSE_EDGE,
        min_bet <= max_bet,
        derived is Some,
        derived->Some_0.0 == accounts[1].key@,
        accounts[1].vacant(),
    ensures
        ({
            let outcome = initialize_outcome(accounts, derived, house_edge, min_bet, max_bet);
            let config = CasinoModel {
                authority: accounts[0].key,
                house_edge,
                min_bet,
                max_bet,
                operators: seq![accounts[0].key],
            };
            &&& outcome is Ok
            &&& outcome->Ok_0.write == Some((1usize, config.encoding()))
            &&& outcome->Ok_0.create is Some
            &&& outcome->Ok_0.create->Some_0.target == 1
            &&& outcome->Ok_0.create->Some_0.space == 86
            &&& outcome->Ok_0.transfer is None
            &&& CasinoModel::decoded(config.encoding()) == Some(config)
        }),
{
    let config = CasinoModel {
        authority: accounts[0].key,
        house_edge,
        min_bet,
        max_bet,
        operators: seq![accounts[0].key],
    };
    config.lemma_encoding_layout();
    config.lemma_decoded(config.encoding());
}

/// `Initialize` with bounds out of order is rejected as such, once the
/// authority has signed an admissible house edge.
pub proof fn law_initialize_rejects_inverted_bounds(
    accounts: Seq<Account>,
    derived: Option<(Seq<u8>, u8)>,
    house_edge: u16,
    min_bet: u64,
    max_bet: u64,
)
    requires
        accounts.len() >= 3,
        accounts[0].is_signer,
        house_edge <= MAX_HOUSE_EDGE,
        min_bet > max_bet,
    ensures
        initialize_outcome(accounts, derived, house_edge, min_bet, max_bet) == Err::<
            CommitModel,
            CasinoError,
        >(CasinoError::InvalidBetAmount),
{
}

/// `UpdateParams` that would leave the bounds out of order is rejected as
/// such, once the authority of the configuration has signed and any new
/// house edge is admissible.
pub proof fn law_update_rejects_inverted_bounds(
    accounts: Seq<Account>,
    house_edge: Option<u16>,
    min_bet: Option<u64>,
    max_bet: Option<u64>,
)
    requires
        accounts.len() >= 2,
        accounts[0].is_signer,
        CasinoModel::decoded(accounts[1].data@) is Some,
        CasinoModel::decoded(accounts[1].data@)->Some_0.authority == accounts[0].key,
        house_edge is Some ==> house_edge->Some_0 <= MAX_HOUSE_EDGE,
        ({
            let next = CasinoModel::decoded(accounts[1].data@)->Some_0.with_params(
                house_edge,
                min_bet,
                max_bet,
            );
            next.min_bet > next.max_bet
        }),
    ensures
        update_params_outcome(accounts, house_edge, min_bet, max_bet) == Err::<
            CommitModel,
            CasinoError,
        >(CasinoError::InvalidBetAmount),
{
}

/// `Initialize` is not accepted twice: once the configuration record
/// holds what an accepted `Initialize` wrote, every `Initialize` aimed at
/// that record is rejected.
pub proof fn law_initialize_only_once(
    accounts: Seq<Account>,
    derived: Option<(Seq<u8>, u8)>,
    house_edge: u16,
    min_bet: u64,
    max_bet: u64,
    later_accounts: Seq<Account>,
    later_derived: Option<(Seq<u8>, u8)>,
    later_house_edge: u16,
    later_min_bet: u64,
    later_max_bet: u64,
)
    requires
        initialize_outcome(accounts, derived, house_edge, min_bet, max_bet) is Ok,
        Some((1usize, later_accounts[1].data@)) == initialize_outcome(
            accounts,
            derived,
            house_edge,
            min_bet,
            max_bet,
        )->Ok_0.write,
    ensures
        initialize_outcome(
            later_accounts,
            later_derived,
            later_house_edge,
            later_min_bet,
            later_max_bet,
        ) is Err,
        later_accounts.len() >= 3 && later_accounts[0].is_signer && later_house_edge
            <= MAX_HOUSE_EDGE && later_min_bet <= later_max_bet && later_derived is Some
            && later_derived->Some_0.0 == later_accounts[1].key@ ==> initialize_outcome(
            later_accounts,
            later_derived,
            later_house_edge,
            later_min_bet,
            later_max_bet,
        ) == Err::<CommitModel, CasinoError>(CasinoError::GameAlreadyExists),
{
    let config = CasinoModel::initial(accounts[0].key, house_edge, min_bet, max_bet)->Ok_0;
    config.lemma_encoding_layout();
}

/// `PlaceBet` with a bet outside the bounds of the configuration, or of
/// nothing, is rejected; as an invalid bet, once the player has signed.
pub proof fn law_place_bet_rejects_bet_out_of_bounds(
    accounts: Seq<Account>,
    derived: Option<(Seq<u8>, u8)>,
    game_id: [u8; 32],
    bet_amount: u64,
)
    requires
        CasinoModel::decoded(accounts[1].data@) is Some ==> {
            let config = CasinoModel::decoded(accounts[1].data@)->Some_0;
            bet_amount < config.min_bet || bet_amount > config.max_bet || bet_amount == 0
        },
    ensures
        place_bet_outcome(accounts, derived, game_id, bet_amount) is Err,
        accounts.len() >= 4 && accounts[0].is_signer && CasinoModel::decoded(accounts[1].data@)
            is Some ==> place_bet_outcome(accounts, derived, game_id, bet_amount) == Err::<
            CommitModel,
            CasinoError,
        >(CasinoError::InvalidBetAmount),
{
}

/// `PlaceBet` with a bet within the bounds succeeds where the player has
/// signed and can cover the bet and the vacant record at the derived
/// address is given: it creates that record, writes to it an open wager
/// of the player at that stake, and moves the stake from the player to
/// the record.
pub proof fn law_place_bet_accepts_bet_within_bounds(
    accounts: Seq<Account>,
    derived: Option<(Seq<u8>, u8)>,
    game_id: [u8; 32],
    bet_amount: u64,
)
    requires
        accounts.len() >= 4,
        accounts[0].is_signer,
        CasinoModel::decoded(accounts[1].data@) is Some,
        CasinoModel::decoded(accounts[1].data@)->Some_0.min_bet <= bet_amount
            <= CasinoModel::decoded(accounts[1].data@)->Some_0.max_bet,
        bet_amount > 0,
        bet_amount <= accounts[0].lamports,
        derived is Some,
        derived->Some_0.0 == accounts[2].key@,
        accounts[2].vacant(),
    ensures
        ({
            let outcome = place_bet_outcome(accounts, derived, game_id, bet_amount);
            let game = GameState::opened(accounts[0].key, bet_amount);
            &&& outcome is Ok
            &&& outcome->Ok_0.write == Some((2usize, game.encoding()))
            &&& outcome->Ok_0.create is Some
            &&& outcome->Ok_0.create->Some_0.target == 2
            &&& outcome->Ok_0.transfer == Some(
                Transfer { source: 0, destination: 2, amount: bet_amount },
            )
            &&& GameState::decoded(game.encoding()) == Some(game)
            &&& !game.is_settled
        }),
{
    let game = GameState::opened(accounts[0].key, bet_amount);
    game.lemma_decoded(game.encoding());
}

/// A wager is not placed twice: once the game record holds what an
/// accepted `PlaceBet` wrote, every `PlaceBet` aimed at that record is
/// rejected, whoever the player; as a duplicate, where nothing else is
/// wrong with it.
pub proof fn law_place_bet_only_once(
    accounts: Seq<Account>,
    derived: Option<(Seq<u8>, u8)>,
    game_id: [u8; 32],
    bet_amount: u64,
    later_accounts: Seq<Account>,
    later_derived: Option<(Seq<u8>, u8)>,
    later_game_id: [u8; 32],
    later_bet_amount: u64,
)
    requires
        place_bet_outcome(accounts, derived, game_id, bet_amount) is Ok,
        Some((2usize, later_accounts[2].data@)) == place_bet_outcome(
            accounts,
            derived,
            game_id,
            bet_amount,
        )->Ok_0.write,
    ensures
        place_bet_outcome(later_accounts, later_derived, later_game_id, later_bet_amount) is Err,
        ({
            let config = CasinoModel::decoded(later_accounts[1].data@);
            later_accounts.len() >= 4 && later_accounts[0].is_signer && config is Some
                && bet_admitted(later_bet_amount, config->Some_0.min_bet, config->Some_0.max_bet)
                && later_bet_amount <= later_accounts[0].lamports && later_derived is Some
                && later_derived->Some_0.0 == later_accounts[2].key@
        }) ==> place_bet_outcome(later_accounts, later_derived, later_game_id, later_bet_amount)
            == Err::<CommitModel, CasinoError>(CasinoError::GameAlreadyExists),
{
    let game = GameState::opened(accounts[0].key, bet_amount);
    game.lemma_encoding_layout();
}

/// `SettleGame` of an open wager as a win within the highest payout
/// succeeds where a listed operator has signed, the player given is the
/// wager's, the escrow covers the payout and the player's balance can
/// take it: it moves exactly the payout from the game record to the
/// player and writes the wager as settled.
pub proof fn law_settle_pays_win_within_bound(
    accounts: Seq<Account>,
    win_amount: u64,
    result_hash: [u8; 32],
)
    requires
        accounts.len() >= 5,
        accounts[0].is_signer,
        CasinoModel::decoded(accounts[1].data@) is Some,
        CasinoModel::decoded(accounts[1].data@)->Some_0.is_operator(accounts[0].key),
        GameState::decoded(accounts[2].data@) is Some,
        !GameState::decoded(accounts[2].data@)->Some_0.is_settled,
        GameState::decoded(accounts[2].data@)->Some_0.player == accounts[3].key,
        max_payout_spec(
            GameState::decoded(accounts[2].data@)->Some_0.bet_amount,
            CasinoModel::decoded(accounts[1].data@)->Some_0.house_edge,
        ) is Ok,
        win_amount <= max_payout_spec(
            GameState::decoded(accounts[2].data@)->Some_0.bet_amount,
            CasinoModel::decoded(accounts[1].data@)->Some_0.house_edge,
        )->Ok_0,
        win_amount <= accounts[2].lamports,
        accounts[3].lamports + win_amount <= u64::MAX,
    ensures
        ({
            let outcome = settle_game_outcome(accounts, true, win_amount, result_hash);
            let game = GameState::decoded(accounts[2].data@)->Some_0;
            let next = GameState {
                is_settled: true,
                is_win: true,
                win_amount,
                result_hash,
                ..game
            };
            &&& outcome is Ok
            &&& outcome->Ok_0.transfer == Some(
                Transfer { source: 2, destination: 3, amount: win_amount },
            )
            &&& outcome->Ok_0.write == Some((2usize, next.encoding()))
            &&& outcome->Ok_0.create is None
            &&& GameState::decoded(next.encoding()) == Some(next)
        }),
{
    let game = GameState::decoded(accounts[2].data@)->Some_0;
    let next = GameState { is_settled: true, is_win: true, win_amount, result_hash, ..game };
    next.lemma_decoded(next.encoding());
}

/// `SettleGame` of an open wager as a win of one unit above the highest
/// payout is rejected for its amount, where a listed operator has signed
/// and the player given is the wager's.
pub proof fn law_settle_rejects_win_above_bound(
    accounts: Seq<Account>,
    win_amount: u64,
    result_hash: [u8; 32],
)
    requires
        accounts.len() >= 5,
        accounts[0].is_signer,
        CasinoModel::decoded(accounts[1].data@) is Some,
        CasinoModel::decoded(accounts[1].data@)->Some_0.is_operator(accounts[0].key),
        GameState::decoded(accounts[2].data@) is Some,
        !GameState::decoded(accounts[2].data@)->Some_0.is_settled,
        GameState::decoded(accounts[2].data@)->Some_0.player == accounts[3].key,
        max_payout_spec(
            GameState::decoded(accounts[2].data@)->Some_0.bet_amount,
            CasinoModel::decoded(accounts[1].data@)->Some_0.house_edge,
        ) is Ok,
        win_amount > max_payout_spec(
            GameState::decoded(accounts[2].data@)->Some_0.bet_amount,
            CasinoModel::decoded(accounts[1].data@)->Some_0.house_edge,
        )->Ok_0,
    ensures
        settle_game_outcome(accounts, true, win_amount, result_hash) == Err::<
            CommitModel,
            CasinoError,
        >(CasinoError::ExpectedAmountMismatch),
{
}

/// A wager is not settled twice: once the game record holds what an
/// accepted `SettleGame` wrote, every `SettleGame` aimed at that record
/// is rejected, whatever it asks for; as already settled, where a listed
/// operator has signed it.
pub proof fn law_settle_only_once(
    accounts: Seq<Account>,
    is_win: bool,
    win_amount: u64,
    result_hash: [u8; 32],
    later_accounts: Seq<Account>,
    later_is_win: bool,
    later_win_amount: u64,
    later_result_hash: [u8; 32],
)
    requires
        settle_game_outcome(accounts, is_win, win_amount, result_hash) is Ok,
        Some((2usize, later_accounts[2].data@)) == settle_game_outcome(
            accounts,
            is_win,
            win_amount,
            result_hash,
        )->Ok_0.write,
    ensures
        settle_game_outcome(later_accounts, later_is_win, later_win_amount, later_result_hash)
            is Err,
        later_accounts.len() >= 5 && later_accounts[0].is_signer && CasinoModel::decoded(
            later_accounts[1].data@,
        ) is Some && CasinoModel::decoded(later_accounts[1].data@)->Some_0.is_operator(
            later_accounts[0].key,
        ) ==> settle_game_outcome(
            later_accounts,
            later_is_win,
            later_win_amount,
            later_result_hash,
        ) == Err::<CommitModel, CasinoError>(CasinoError::GameAlreadySettled),
{
    let config = CasinoModel::decoded(accounts[1].data@)->Some_0;
    let game = GameState::decoded(accounts[2].data@)->Some_0;
    let next = game.settled(config, accounts[3].key, is_win, win_amount, result_hash)->Ok_0;
    next.lemma_decoded(next.encoding());
}

/// `SettleGame` for a player other than the one who placed the bet is
/// rejected; as a mismatch, where a listed operator has signed and the
/// wager is open.
pub proof fn law_settle_rejects_other_player(
    accounts: Seq<Account>,
    is_win: bool,
    win_amount: u64,
    result_hash: [u8; 32],
)
    requires
        GameState::decoded(accounts[2].data@) is Some ==> GameState::decoded(
            accounts[2].data@,
        )->Some_0.player != accounts[3].key,
    ensures
        settle_game_outcome(accounts, is_win, win_amount, result_hash) is Err,
        accounts.len() >= 5 && accounts[0].is_signer && CasinoModel::decoded(accounts[1].data@)
            is Some && CasinoModel::decoded(accounts[1].data@)->Some_0.is_operator(
            accounts[0].key,
        ) && GameState::decoded(accounts[2].data@) is Some && !GameState::decoded(
            accounts[2].data@,
        )->Some_0.is_settled ==> settle_game_outcome(accounts, is_win, win_amount, result_hash)
            == Err::<CommitModel, CasinoError>(CasinoError::AddressMismatch),
{
}

/// `AddOperator` is idempotent: once the configuration record holds what
/// an accepted `AddOperator` left there, the same instruction is accepted
/// again and changes nothing.
pub proof fn law_add_operator_twice(accounts: Seq<Account>, later_accounts: Seq<Account>)
    requires
        add_operator_outcome(accounts) is Ok,
        later_accounts.len() >= 3,
        later_accounts[0].is_signer,
        later_accounts[0].key == accounts[0].key,
        later_accounts[2].key == accounts[2].key,
        match add_operator_outcome(accounts)->Ok_0.write {
            Some((target, data)) => later_accounts[1].data@ == data,
            None => later_accounts[1].data@ == accounts[1].data@,
        },
    ensures
        add_operator_outcome(later_accounts) == Ok::<CommitModel, CasinoError>(
            CommitModel::nothing(),
        ),
        CasinoModel::decoded(later_accounts[1].data@) is Some,
        CasinoModel::decoded(later_accounts[1].data@)->Some_0 == CasinoModel::decoded(
            accounts[1].data@,
        )->Some_0.with_operator(accounts[2].key),
{
    let config = CasinoModel::decoded(accounts[1].data@)->Some_0;
    let next = config.with_operator(accounts[2].key);
    config.lemma_decoded(accounts[1].data@);
    next.lemma_decoded(next.encoding());
    law_add_operator_is_idempotent(config, accounts[2].key);
}

/// `RemoveOperator` aimed at the authority is always rejected; as
/// unauthorized, where the authority has signed it.
pub proof fn law_remove_authority_is_rejected(accounts: Seq<Account>)
    requires
        CasinoModel::decoded(accounts[1].data@) is Some ==> CasinoModel::decoded(
            accounts[1].data@,
        )->Some_0.authority == accounts[2].key,
    ensures
        remove_operator_outcome(accounts) is Err,
        accounts.len() >= 3 && accounts[0].is_signer && CasinoModel::decoded(accounts[1].data@)
            is Some ==> remove_operator_outcome(accounts) == Err::<CommitModel, CasinoError>(
            CasinoError::Unauthorized,
        ),
{
}

/// `RemoveOperator` aimed at an identity that is no operator is accepted
/// and changes nothing, where the authority of a well-formed
/// configuration has signed.
pub proof fn law_remove_non_member_changes_nothing(accounts: Seq<Account>)
    requires
        accounts.len() >= 3,
        accounts[0].is_signer,
        CasinoModel::decoded(accounts[1].data@) is Some,
        CasinoModel::decoded(accounts[1].data@)->Some_0.wf(),
        CasinoModel::decoded(accounts[1].data@)->Some_0.authority == accounts[0].key,
        !CasinoModel::decoded(accounts[1].data@)->Some_0.is_operator(accounts[2].key),
    ensures
        remove_operator_outcome(accounts) == Ok::<CommitModel, CasinoError>(
            CommitModel::nothing(),
        ),
{
}

/// A rejected instruction commits nothing, and an accepted one commits
/// only among the records it was given: a record is created only by
/// `Initialize` and `PlaceBet`, and value moves only by `PlaceBet` and a
/// winning `SettleGame`.
pub proof fn law_commits_stay_within_the_records(
    accounts: Seq<Account>,
    derived: Option<(Seq<u8>, u8)>,
    house_edge: u16,
    min_bet: u64,
    max_bet: u64,
    game_id: [u8; 32],
    bet_amount: u64,
    is_win: bool,
    win_amount: u64,
    result_hash: [u8; 32],
    new_house_edge: Option<u16>,
    new_min_bet: Option<u64>,
    new_max_bet: Option<u64>,
)
    ensures
        ({
            let outcome = initialize_outcome(accounts, derived, house_edge, min_bet, max_bet);
            outcome is Ok ==> within(outcome->Ok_0, accounts.len()) && outcome->Ok_0.transfer
                is None
        }),
        ({
            let outcome = place_bet_outcome(accounts, derived, game_id, bet_amount);
            outcome is Ok ==> within(outcome->Ok_0, accounts.len())
        }),
        ({
            let outcome = settle_game_outcome(accounts, is_win, win_amount, result_hash);
            outcome is Ok ==> within(outcome->Ok_0, accounts.len()) && outcome->Ok_0.create
                is None && (outcome->Ok_0.transfer is Some <==> is_win)
        }),
        ({
            let outcome = update_params_outcome(accounts, new_house_edge, new_min_bet, new_max_bet);
            outcome is Ok ==> within(outcome->Ok_0, accounts.len()) && outcome->Ok_0.create
                is None && outcome->Ok_0.transfer is None
        }),
        ({
            let outcome = add_operator_outcome(accounts);
            outcome is Ok ==> within(outcome->Ok_0, accounts.len()) && outcome->Ok_0.create
                is None && outcome->Ok_0.transfer is None
        }),
        ({
            let outcome = remove_operator_outcome(accounts);
            outcome is Ok ==> within(outcome->Ok_0, accounts.len()) && outcome->Ok_0.create
                is None && outcome->Ok_0.transfer is None
        }),
{
}

/// Whether every place that a commit names lies within a list of `count`
/// records.
pub open spec fn within(commit: CommitModel, count: nat) -> bool {
    &&& commit.create is Some ==> commit.create->Some_0.payer < count
        && commit.create->Some_0.target < count
    &&& commit.write is Some ==> commit.write->Some_0.0 < count
    &&& commit.transfer is Some ==> commit.transfer->Some_0.source < count
        && commit.transfer->Some_0.destination < count
}

} // verus!
