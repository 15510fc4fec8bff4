use vstd::prelude::*;
use crate::engine::{create_spec, join_spec, settle_spec, start_spec, EngineView, SettlementResult};
use crate::errors::EngineError;
use crate::game::{Game, GameStatus};

verus! {

/// Settlement is exclusive: after a settlement succeeds, settling the same
/// game again — any claimed winner — fails with `Conflict` and moves
/// nothing, so balances are mutated exactly once.
pub proof fn lemma_single_settlement(
    e: EngineView,
    m: Map<u64, i64>,
    game_id: u64,
    winner_id: u64,
    second_winner_id: u64,
)
    ensures
        ({
            let (e1, m1, r1) = settle_spec(e, m, game_id, winner_id);
            r1 is Ok ==> settle_spec(e1, m1, game_id, second_winner_id) == (
                e1,
                m1,
                Err::<SettlementResult, EngineError>(EngineError::Conflict),
            )
        }),
{
}

/// Of two rival joins on one `Waiting` game, exactly one wins: the join
/// applied first succeeds and activates the game with its player, and the
/// one applied second — whatever player it brings — finds the game taken,
/// gets `Conflict`, and changes nothing.
pub proof fn lemma_join_race(e: EngineView, game_id: u64, first_id: u64, second_id: u64)
    requires
        (game_id as int) < e.games.len(),
        e.games[game_id as int].status is Waiting,
        first_id != e.games[game_id as int].player1_id,
    ensures
        ({
            let (e1, r1) = join_spec(e, game_id, first_id);
            &&& r1 is Ok
            &&& e1.games[game_id as int].player2_id == Some(first_id)
            &&& e1.games[game_id as int].status is Active
            &&& join_spec(e1, game_id, second_id) == (
                e1,
                Err::<Game, EngineError>(EngineError::Conflict),
            )
        }),
{
}

/// Settlement is atomic: whenever it fails — the game unknown, not ready,
/// the winner no participant, or any transfer refused by the ledger — no
/// balance and no game record changes. In particular, a credit that cannot
/// be applied rolls the debits back with it: none is observable afterward.
pub proof fn lemma_settle_rollback(e: EngineView, m: Map<u64, i64>, game_id: u64, winner_id: u64)
    ensures
        ({
            let (e1, m1, r1) = settle_spec(e, m, game_id, winner_id);
            r1 is Err ==> e1 == e && m1 == m
        }),
{
}

/// A game's position in the lifecycle, for stating that it only advances.
pub open spec fn status_rank(s: GameStatus) -> int {
    match s {
        GameStatus::Waiting => 0,
        GameStatus::Active => 1,
        GameStatus::Settled => 2,
    }
}

/// Once settled, a game record is immutable: every later lifecycle
/// operation on it fails with `Conflict` and leaves the whole state — games
/// and balances — unchanged.
pub proof fn lemma_settled_game_is_immutable(
    e: EngineView,
    m: Map<u64, i64>,
    game_id: u64,
    player2_id: u64,
    winner_id: u64,
)
    requires
        (game_id as int) < e.games.len(),
        e.games[game_id as int].status is Settled,
    ensures
        join_spec(e, game_id, player2_id) == (e, Err::<Game, EngineError>(EngineError::Conflict)),
        start_spec(e, game_id) == (e, Err::<Game, EngineError>(EngineError::Conflict)),
        settle_spec(e, m, game_id, winner_id) == (
            e,
            m,
            Err::<SettlementResult, EngineError>(EngineError::Conflict),
        ),
{
}

/// The lifecycle only moves forward, one state at a time — `Waiting` to
/// `Active` to `Settled`, nothing reversed, nothing skipped — and no
/// operation touches any other game's record. Creation appends and leaves
/// every existing record as it was.
pub proof fn lemma_status_moves_forward(
    e: EngineView,
    m: Map<u64, i64>,
    game_id: u64,
    player1_id: u64,
    player2_id: u64,
    winner_id: u64,
    entry_fee: i64,
    owner_cut: i64,
    i: int,
)
    requires
        0 <= i < e.games.len(),
    ensures
        ({
            let e1 = join_spec(e, game_id, player2_id).0;
            &&& e1.games.len() == e.games.len()
            &&& status_rank(e.games[i].status) <= status_rank(e1.games[i].status) <= status_rank(
                e.games[i].status,
            ) + 1
            &&& (i != game_id ==> e1.games[i] == e.games[i])
        }),
        ({
            let e1 = start_spec(e, game_id).0;
            &&& e1.games.len() == e.games.len()
            &&& status_rank(e.games[i].status) <= status_rank(e1.games[i].status) <= status_rank(
                e.games[i].status,
            ) + 1
            &&& (i != game_id ==> e1.games[i] == e.games[i])
        }),
        ({
            let e1 = settle_spec(e, m, game_id, winner_id).0;
            &&& e1.games.len() == e.games.len()
            &&& status_rank(e.games[i].status) <= status_rank(e1.games[i].status) <= status_rank(
                e.games[i].status,
            ) + 1
            &&& (i != game_id ==> e1.games[i] == e.games[i])
        }),
        ({
            let e1 = create_spec(e, player1_id, entry_fee, owner_cut).0;
            &&& e.games.len() <= e1.games.len()
            &&& e1.games[i] == e.games[i]
        }),
{
}

} // verus!

