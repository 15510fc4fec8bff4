use wager_escrow::engine::Engine;
use wager_escrow::errors::EngineError;
use wager_escrow::game::GameStatus;
use wager_escrow::ledger::LedgerStore;
use wager_escrow::shares::{compute_shares, MAX_ENTRY_FEE};

const OWNER: u64 = 42;

fn engine_with_funded_players() -> (Engine, LedgerStore) {
    let engine = Engine::new(OWNER);
    let mut store = LedgerStore::new();
    store.provision_account(1, 500).unwrap();
    store.provision_account(2, 500).unwrap();
    store.provision_account(OWNER, 0).unwrap();
    (engine, store)
}

#[test]
fn create_waiting_game() {
    let mut engine = Engine::new(OWNER);
    let g = engine.create_game(1, 100, 10).unwrap();
    assert_eq!(g.id, 0);
    assert_eq!(g.player1_id, 1);
    assert!(g.player2_id.is_none());
    assert_eq!(g.entry_fee, 100);
    assert_eq!(g.owner_cut, 10);
    assert_eq!(g.status, GameStatus::Waiting);
    let fetched = engine.get_game(0).unwrap();
    assert_eq!(fetched.status, GameStatus::Waiting);
}

#[test]
fn create_assigns_sequential_ids() {
    let mut engine = Engine::new(OWNER);
    assert_eq!(engine.create_game(1, 10, 5).unwrap().id, 0);
    assert_eq!(engine.create_game(3, 20, 5).unwrap().id, 1);
    assert_eq!(engine.create_game(5, 30, 5).unwrap().id, 2);
}

#[test]
fn create_rejects_negative_fee() {
    let mut engine = Engine::new(OWNER);
    assert!(matches!(engine.create_game(1, -1, 10), Err(EngineError::InvalidParameter)));
    assert!(matches!(engine.get_game(0), Err(EngineError::NotFound)));
}

#[test]
fn create_rejects_cut_out_of_range() {
    let mut engine = Engine::new(OWNER);
    assert!(matches!(engine.create_game(1, 100, 101), Err(EngineError::InvalidParameter)));
    assert!(matches!(engine.create_game(1, 100, -5), Err(EngineError::InvalidParameter)));
    assert!(matches!(engine.get_game(0), Err(EngineError::NotFound)));
}

#[test]
fn create_accepts_boundary_parameters() {
    let mut engine = Engine::new(OWNER);
    assert!(engine.create_game(1, 0, 0).is_ok());
    assert!(engine.create_game(1, MAX_ENTRY_FEE, 100).is_ok());
    assert!(matches!(
        engine.create_game(1, MAX_ENTRY_FEE + 1, 10),
        Err(EngineError::InvalidParameter)
    ));
}

#[test]
fn join_sets_player_and_activates() {
    let mut engine = Engine::new(OWNER);
    engine.create_game(1, 100, 10).unwrap();
    let g = engine.join_game(0, 2).unwrap();
    assert_eq!(g.player2_id, Some(2));
    assert_eq!(g.status, GameStatus::Active);
    let fetched = engine.get_game(0).unwrap();
    assert_eq!(fetched.player2_id, Some(2));
    assert_eq!(fetched.status, GameStatus::Active);
}

#[test]
fn join_unknown_game_is_not_found() {
    let mut engine = Engine::new(OWNER);
    assert!(matches!(engine.join_game(7, 2), Err(EngineError::NotFound)));
}

#[test]
fn join_own_game_is_invalid() {
    let mut engine = Engine::new(OWNER);
    engine.create_game(1, 100, 10).unwrap();
    assert!(matches!(engine.join_game(0, 1), Err(EngineError::InvalidParameter)));
    assert!(engine.get_game(0).unwrap().player2_id.is_none());
}

#[test]
fn join_race_exactly_one_wins() {
    let mut engine = Engine::new(OWNER);
    engine.create_game(1, 100, 10).unwrap();
    assert!(engine.join_game(0, 2).is_ok());
    assert!(matches!(engine.join_game(0, 3), Err(EngineError::Conflict)));
    let g = engine.get_game(0).unwrap();
    assert_eq!(g.player2_id, Some(2));
    assert_eq!(g.status, GameStatus::Active);
}

#[test]
fn start_activates_waiting_game() {
    let mut engine = Engine::new(OWNER);
    engine.create_game(1, 100, 10).unwrap();
    let g = engine.start_game(0).unwrap();
    assert_eq!(g.status, GameStatus::Active);
    assert!(g.player2_id.is_none());
}

#[test]
fn start_conflicts_once_active() {
    let mut engine = Engine::new(OWNER);
    engine.create_game(1, 100, 10).unwrap();
    engine.join_game(0, 2).unwrap();
    assert!(matches!(engine.start_game(0), Err(EngineError::Conflict)));
}

#[test]
fn started_game_without_second_player_cannot_settle() {
    let (mut engine, mut store) = engine_with_funded_players();
    engine.create_game(1, 100, 10).unwrap();
    engine.start_game(0).unwrap();
    assert!(matches!(engine.settle_game(&mut store, 0, 1), Err(EngineError::Conflict)));
    assert_eq!(store.balance_of(1), Some(500));
}

#[test]
fn scenario_full_settlement() {
    let (mut engine, mut store) = engine_with_funded_players();
    let g = engine.create_game(1, 100, 10).unwrap();
    assert_eq!(g.status, GameStatus::Waiting);
    let g = engine.join_game(0, 2).unwrap();
    assert_eq!(g.status, GameStatus::Active);
    let res = engine.settle_game(&mut store, 0, 1).unwrap();
    assert_eq!(res.game_id, 0);
    assert_eq!(res.winner_id, 1);
    assert_eq!(res.pool, 200);
    assert_eq!(res.owner_share, 20);
    assert_eq!(res.winner_share, 180);
    // Winner: 500 staked 100, received 180; loser: 500 staked 100;
    // owner: the 20 cut. The deltas sum to zero.
    assert_eq!(store.balance_of(1), Some(580));
    assert_eq!(store.balance_of(2), Some(400));
    assert_eq!(store.balance_of(OWNER), Some(20));
    assert_eq!(engine.get_game(0).unwrap().status, GameStatus::Settled);
}

#[test]
fn settlement_credits_loser_as_winner() {
    let (mut engine, mut store) = engine_with_funded_players();
    engine.create_game(1, 100, 10).unwrap();
    engine.join_game(0, 2).unwrap();
    let res = engine.settle_game(&mut store, 0, 2).unwrap();
    assert_eq!(res.winner_share, 180);
    assert_eq!(store.balance_of(1), Some(400));
    assert_eq!(store.balance_of(2), Some(580));
    assert_eq!(store.balance_of(OWNER), Some(20));
}

#[test]
fn shares_reconcile_exactly() {
    let s = compute_shares(100, 10);
    assert_eq!(s.pool, 200);
    assert_eq!(s.owner_share, 20);
    assert_eq!(s.winner_share, 180);

    // A cut that does not divide the pool evenly: the winner's share
    // absorbs the remainder, and the two shares still reconcile.
    let s = compute_shares(3, 25);
    assert_eq!(s.pool, 6);
    assert_eq!(s.owner_share, 1);
    assert_eq!(s.winner_share, 5);

    let s = compute_shares(7, 33);
    assert_eq!(s.pool, 14);
    assert_eq!(s.owner_share, 4);
    assert_eq!(s.winner_share, 10);

    let s = compute_shares(100, 0);
    assert_eq!(s.owner_share, 0);
    assert_eq!(s.winner_share, 200);

    let s = compute_shares(100, 100);
    assert_eq!(s.owner_share, 200);
    assert_eq!(s.winner_share, 0);

    let s = compute_shares(MAX_ENTRY_FEE, 100);
    assert_eq!(s.owner_share + s.winner_share, s.pool);

    let s = compute_shares(0, 50);
    assert_eq!(s.pool, 0);
    assert_eq!(s.owner_share, 0);
    assert_eq!(s.winner_share, 0);
}

#[test]
fn second_settlement_conflicts() {
    let (mut engine, mut store) = engine_with_funded_players();
    engine.create_game(1, 100, 10).unwrap();
    engine.join_game(0, 2).unwrap();
    engine.settle_game(&mut store, 0, 1).unwrap();
    assert!(matches!(engine.settle_game(&mut store, 0, 1), Err(EngineError::Conflict)));
    assert!(matches!(engine.settle_game(&mut store, 0, 2), Err(EngineError::Conflict)));
    // Balances were mutated exactly once.
    assert_eq!(store.balance_of(1), Some(580));
    assert_eq!(store.balance_of(2), Some(400));
    assert_eq!(store.balance_of(OWNER), Some(20));
}

#[test]
fn failed_credit_rolls_debits_back() {
    let mut engine = Engine::new(OWNER);
    let mut store = LedgerStore::new();
    store.provision_account(1, 500).unwrap();
    store.provision_account(2, 500).unwrap();
    // No owner account: the final credit cannot be applied.
    engine.create_game(1, 100, 10).unwrap();
    engine.join_game(0, 2).unwrap();
    assert!(matches!(engine.settle_game(&mut store, 0, 1), Err(EngineError::LedgerFailure)));
    // No debit is observable; the game is still open.
    assert_eq!(store.balance_of(1), Some(500));
    assert_eq!(store.balance_of(2), Some(500));
    assert_eq!(engine.get_game(0).unwrap().status, GameStatus::Active);
    // Once the owner account exists, the same settlement goes through.
    store.provision_account(OWNER, 0).unwrap();
    assert!(engine.settle_game(&mut store, 0, 1).is_ok());
    assert_eq!(store.balance_of(1), Some(580));
}

#[test]
fn invalid_winner_changes_nothing() {
    let (mut engine, mut store) = engine_with_funded_players();
    engine.create_game(1, 100, 10).unwrap();
    engine.join_game(0, 2).unwrap();
    assert!(matches!(engine.settle_game(&mut store, 0, 999), Err(EngineError::InvalidParameter)));
    assert_eq!(store.balance_of(1), Some(500));
    assert_eq!(store.balance_of(2), Some(500));
    assert_eq!(store.balance_of(OWNER), Some(0));
    assert_eq!(engine.get_game(0).unwrap().status, GameStatus::Active);
}

#[test]
fn settle_unknown_game_is_not_found() {
    let (mut engine, mut store) = engine_with_funded_players();
    assert!(matches!(engine.settle_game(&mut store, 3, 1), Err(EngineError::NotFound)));
}

#[test]
fn settle_waiting_game_conflicts() {
    let (mut engine, mut store) = engine_with_funded_players();
    engine.create_game(1, 100, 10).unwrap();
    assert!(matches!(engine.settle_game(&mut store, 0, 1), Err(EngineError::Conflict)));
    assert_eq!(store.balance_of(1), Some(500));
}

#[test]
fn overdraft_is_permitted() {
    let mut engine = Engine::new(OWNER);
    let mut store = LedgerStore::new();
    store.provision_account(1, 0).unwrap();
    store.provision_account(2, 0).unwrap();
    store.provision_account(OWNER, 0).unwrap();
    engine.create_game(1, 100, 10).unwrap();
    engine.join_game(0, 2).unwrap();
    engine.settle_game(&mut store, 0, 1).unwrap();
    assert_eq!(store.balance_of(1), Some(80));
    assert_eq!(store.balance_of(2), Some(-100));
    assert_eq!(store.balance_of(OWNER), Some(20));
}

#[test]
fn settled_game_is_immutable() {
    let (mut engine, mut store) = engine_with_funded_players();
    engine.create_game(1, 100, 10).unwrap();
    engine.join_game(0, 2).unwrap();
    engine.settle_game(&mut store, 0, 1).unwrap();
    assert!(matches!(engine.join_game(0, 3), Err(EngineError::Conflict)));
    assert!(matches!(engine.start_game(0), Err(EngineError::Conflict)));
    let g = engine.get_game(0).unwrap();
    assert_eq!(g.status, GameStatus::Settled);
    assert_eq!(g.player2_id, Some(2));
}

#[test]
fn owner_account_is_fixed_at_construction() {
    let engine = Engine::new(OWNER);
    assert_eq!(engine.owner_account(), OWNER);
}
