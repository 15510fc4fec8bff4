use vstd::prelude::*;
use crate::errors::EngineError;
use crate::game::{Game, GameStatus};
use crate::ledger::{accum, can_commit, committed, net_in, LedgerStore};
use crate::shares::{
    compute_shares, lemma_share_bounds, owner_share_of, pool_of, winner_share_of, MAX_ENTRY_FEE,
};

verus! {

/// What one settlement moved.
#[derive(Clone, Copy, Debug, PartialEq, Eq, Structural)]
pub struct SettlementResult {
    pub game_id: u64,
    pub winner_id: u64,
    /// Both entry fees together, in minor units.
    pub pool: i64,
    /// Credited to the platform owner account.
    pub owner_share: i64,
    /// Credited to the winner.
    pub winner_share: i64,
}

/// The engine's abstract state: the game records in order of creation —
/// a game's id is its position — and the fixed platform owner account.
pub struct EngineView {
    pub games: Seq<Game>,
    pub owner_id: u64,
}

impl EngineView {
    pub open spec fn wf(self) -> bool {
        forall|i: int| 0 <= i < self.games.len() ==> (#[trigger] self.games[i]).wf()
            && self.games[i].id as int == i
    }
}

/// The game a state holds under an id, if any.
pub open spec fn lookup_game(e: EngineView, game_id: u64) -> Option<Game> {
    if (game_id as int) < e.games.len() {
        Some(e.games[game_id as int])
    } else {
        None
    }
}

/// What creating a game does: a fresh `Waiting` record on valid arguments,
/// `InvalidParameter` and no change otherwise.
pub open spec fn create_spec(
    e: EngineView,
    player1_id: u64,
    entry_fee: i64,
    owner_cut: i64,
) -> (EngineView, Result<Game, EngineError>) {
    if 0 <= entry_fee <= MAX_ENTRY_FEE && 0 <= owner_cut <= 100 {
        let g = Game {
            id: e.games.len() as u64,
            player1_id: player1_id,
            player2_id: None,
            entry_fee: entry_fee,
            owner_cut: owner_cut,
            status: GameStatus::Waiting,
        };
        (EngineView { games: e.games.push(g), owner_id: e.owner_id }, Ok(g))
    } else {
        (e, Err(EngineError::InvalidParameter))
    }
}

/// What joining does: on a `Waiting` game and a second player other than
/// the first, the one step that both sets `player2_id` and activates the
/// game; otherwise an error and no change.
pub open spec fn join_spec(e: EngineView, game_id: u64, player2_id: u64) -> (
    EngineView,
    Result<Game, EngineError>,
) {
    match lookup_game(e, game_id) {
        None => (e, Err(EngineError::NotFound)),
        Some(g) => {
            if !(g.status is Waiting) {
                (e, Err(EngineError::Conflict))
            } else if player2_id == g.player1_id {
                (e, Err(EngineError::InvalidParameter))
            } else {
                let g2 = Game {
                    id: g.id,
                    player1_id: g.player1_id,
                    player2_id: Some(player2_id),
                    entry_fee: g.entry_fee,
                    owner_cut: g.owner_cut,
                    status: GameStatus::Active,
                };
                (
                    EngineView { games: e.games.update(game_id as int, g2), owner_id: e.owner_id },
                    Ok(g2),
                )
            }
        },
    }
}

/// What starting does: the guarded `Waiting` to `Active` transition, for
/// deployments that activate without a join; `Conflict` once the game has
/// left `Waiting`.
pub open spec fn start_spec(e: EngineView, game_id: u64) -> (
    EngineView,
    Result<Game, EngineError>,
) {
    match lookup_game(e, game_id) {
        None => (e, Err(EngineError::NotFound)),
        Some(g) => {
            if !(g.status is Waiting) {
                (e, Err(EngineError::Conflict))
            } else {
                let g2 = Game {
                    id: g.id,
                    player1_id: g.player1_id,
                    player2_id: g.player2_id,
                    entry_fee: g.entry_fee,
                    owner_cut: g.owner_cut,
                    status: GameStatus::Active,
                };
                (
                    EngineView { games: e.games.update(game_id as int, g2), owner_id: e.owner_id },
                    Ok(g2),
                )
            }
        },
    }
}

/// The net deltas one settlement accumulates, in the order the transfers
/// are issued: both stakes out, the winner's share in, the owner's cut in.
pub open spec fn settle_deltas(
    p1: u64,
    p2: u64,
    winner_id: u64,
    owner_id: u64,
    fee: int,
    cut: int,
) -> Map<u64, i64> {
    accum(
        accum(
            accum(accum(Map::empty(), p1, -fee), p2, -fee),
            winner_id,
            winner_share_of(fee, cut),
        ),
        owner_id,
        owner_share_of(fee, cut),
    )
}

/// What settling does. Success needs the game `Active` with both players
/// in — both stakes are in escrow only then — a winner among the two
/// players, and a ledger that can take every transfer; then the game is
/// `Settled` and the balances move by the settlement deltas, all at once.
/// Every failure leaves both the games and the ledger exactly as they
/// were.
pub open spec fn settle_spec(e: EngineView, m: Map<u64, i64>, game_id: u64, winner_id: u64) -> (
    EngineView,
    Map<u64, i64>,
    Result<SettlementResult, EngineError>,
) {
    match lookup_game(e, game_id) {
        None => (e, m, Err(EngineError::NotFound)),
        Some(g) => {
            if !(g.status is Active) {
                (e, m, Err(EngineError::Conflict))
            } else {
                match g.player2_id {
                    None => (e, m, Err(EngineError::Conflict)),
                    Some(p2) => {
                        if winner_id != g.player1_id && winner_id != p2 {
                            (e, m, Err(EngineError::InvalidParameter))
                        } else {
                            let fee = g.entry_fee as int;
                            let cut = g.owner_cut as int;
                            let t = settle_deltas(
                                g.player1_id,
                                p2,
                                winner_id,
                                e.owner_id,
                                fee,
                                cut,
                            );
                            if can_commit(m, t) {
                                let g2 = Game {
                                    id: g.id,
                                    player1_id: g.player1_id,
                                    player2_id: g.player2_id,
                                    entry_fee: g.entry_fee,
                                    owner_cut: g.owner_cut,
                                    status: GameStatus::Settled,
                                };
                                let res = SettlementResult {
                                    game_id: game_id,
                                    winner_id: winner_id,
                                    pool: pool_of(fee) as i64,
                                    owner_share: owner_share_of(fee, cut) as i64,
                                    winner_share: winner_share_of(fee, cut) as i64,
                                };
                                (
                                    EngineView {
                                        games: e.games.update(game_id as int, g2),
                                        owner_id: e.owner_id,
                                    },
                                    committed(m, t),
                                    Ok(res),
                                )
                            } else {
                                (e, m, Err(EngineError::LedgerFailure))
                            }
                        }
                    },
                }
            }
        },
    }
}

/// The settlement engine: it owns the game records and orchestrates their
/// lifecycle and the transfers against a [`LedgerStore`].
pub struct Engine {
    games: Vec<Game>,
    owner_id: u64,
}

impl View for Engine {
    type V = EngineView;

    closed spec fn view(&self) -> EngineView {
        EngineView { games: self.games@, owner_id: self.owner_id }
    }
}

impl Engine {
    pub open spec fn wf(self) -> bool {
        self@.wf()
    }

    /// An engine with no games, crediting owner cuts to the given platform
    /// account.
    pub fn new(owner_id: u64) -> (e: Engine)
        ensures
            e.wf(),
            e@.games == Seq::<Game>::empty(),
            e@.owner_id == owner_id,
    {
        let e = Engine { games: Vec::new(), owner_id };
        proof {
            assert(e@.games =~= Seq::<Game>::empty());
        }
        e
    }

    /// The platform account that receives owner cuts.
    pub fn owner_account(&self) -> (r: u64)
        ensures
            r == self@.owner_id,
    {
        self.owner_id
    }

    /// Creates a game: status `Waiting`, no second player, the next id.
    /// Fails with `InvalidParameter` exactly when the fee is negative or
    /// above [`MAX_ENTRY_FEE`], or the cut lies outside zero to one
    /// hundred.
    pub fn create_game(&mut self, player1_id: u64, entry_fee: i64, owner_cut: i64) -> (r: Result<
        Game,
        EngineError,
    >)
        requires
            old(self).wf(),
        ensures
            final(self).wf(),
            final(self)@ == create_spec(old(self)@, player1_id, entry_fee, owner_cut).0,
            r == create_spec(old(self)@, player1_id, entry_fee, owner_cut).1,
    {
        if !(0 <= entry_fee && entry_fee <= MAX_ENTRY_FEE && 0 <= owner_cut && owner_cut <= 100) {
            return Err(EngineError::InvalidParameter);
        }
        let id = self.games.len() as u64;
        let g = Game {
            id,
            player1_id,
            player2_id: None,
            entry_fee,
            owner_cut,
            status: GameStatus::Waiting,
        };
        self.games.push(g);
        proof {
            assert(self@.wf()) by {
                assert(forall|i: int|
                    0 <= i < old(self)@.games.len() ==> (#[trigger] self@.games[i])
                        == old(self)@.games[i]);
            }
        }
        Ok(g)
    }

    /// The game under an id, or `NotFound`.
    pub fn get_game(&self, game_id: u64) -> (r: Result<Game, EngineError>)
        ensures
            r == match lookup_game(self@, game_id) {
                Some(g) => Ok::<Game, EngineError>(g),
                None => Err::<Game, EngineError>(EngineError::NotFound),
            },
    {
        let n = self.games.len();
        if game_id >= n as u64 {
            return Err(EngineError::NotFound);
        }
        Ok(self.games[game_id as usize])
    }

    /// The second player joins: one conditional step that checks the game
    /// is still `Waiting`, sets `player2_id` and activates — so of two
    /// rival joins, the one applied second finds the game taken and gets
    /// `Conflict`. A player cannot join their own game
    /// (`InvalidParameter`).
    pub fn join_game(&mut self, game_id: u64, player2_id: u64) -> (r: Result<Game, EngineError>)
        requires
            old(self).wf(),
        ensures
            final(self).wf(),
            final(self)@ == join_spec(old(self)@, game_id, player2_id).0,
            r == join_spec(old(self)@, game_id, player2_id).1,
    {
        let n = self.games.len();
        if game_id >= n as u64 {
            return Err(EngineError::NotFound);
        }
        let idx = game_id as usize;
        let g = self.games[idx];
        proof {
            assert(old(self)@.games[idx as int].wf());
        }
        match g.status {
            GameStatus::Waiting => {},
            _ => {
                return Err(EngineError::Conflict);
            },
        }
        if player2_id == g.player1_id {
            return Err(EngineError::InvalidParameter);
        }
        let g2 = Game {
            player2_id: Some(player2_id),
            status: GameStatus::Active,
            ..g
        };
        self.games.set(idx, g2);
        proof {
            assert(self@.wf()) by {
                assert(forall|i: int|
                    0 <= i < self@.games.len() && i != idx ==> (#[trigger] self@.games[i])
                        == old(self)@.games[i]);
            }
        }
        Ok(g2)
    }

    /// The guarded `Waiting` to `Active` transition, for deployments that
    /// decouple activation from joining; `Conflict` once the game has left
    /// `Waiting`. A game activated this way still has no second player and
    /// cannot be settled until one joins.
    pub fn start_game(&mut self, game_id: u64) -> (r: Result<Game, EngineError>)
        requires
            old(self).wf(),
        ensures
            final(self).wf(),
            final(self)@ == start_spec(old(self)@, game_id).0,
            r == start_spec(old(self)@, game_id).1,
    {
        let n = self.games.len();
        if game_id >= n as u64 {
            return Err(EngineError::NotFound);
        }
        let idx = game_id as usize;
        let g = self.games[idx];
        proof {
            assert(old(self)@.games[idx as int].wf());
        }
        match g.status {
            GameStatus::Waiting => {},
            _ => {
                return Err(EngineError::Conflict);
            },
        }
        let g2 = Game { status: GameStatus::Active, ..g };
        self.games.set(idx, g2);
        proof {
            assert(self@.wf()) by {
                assert(forall|i: int|
                    0 <= i < self@.games.len() && i != idx ==> (#[trigger] self@.games[i])
                        == old(self)@.games[i]);
            }
        }
        Ok(g2)
    }

    /// Settles a game: moves it to `Settled` and applies every transfer —
    /// both stakes out, the winner's share and the owner's cut in — as one
    /// transaction against the store. Any failure, the transfer step
    /// included, rolls the whole operation back: neither the game nor any
    /// balance changes.
    pub fn settle_game(
        &mut self,
        store: &mut LedgerStore,
        game_id: u64,
        winner_id: u64,
    ) -> (r: Result<SettlementResult, EngineError>)
        requires
            old(self).wf(),
            old(store).wf(),
        ensures
            final(self).wf(),
            final(store).wf(),
            final(self)@ == settle_spec(old(self)@, old(store)@, game_id, winner_id).0,
            final(store)@ == settle_spec(old(self)@, old(store)@, game_id, winner_id).1,
            r == settle_spec(old(self)@, old(store)@, game_id, winner_id).2,
    {
        let n = self.games.len();
        if game_id >= n as u64 {
            return Err(EngineError::NotFound);
        }
        let idx = game_id as usize;
        let g = self.games[idx];
        proof {
            assert(old(self)@.games[idx as int].wf());
        }
        match g.status {
            GameStatus::Active => {},
            _ => {
                return Err(EngineError::Conflict);
            },
        }
        let p2 = match g.player2_id {
            Some(p) => p,
            None => {
                return Err(EngineError::Conflict);
            },
        };
        let p1 = g.player1_id;
        if winner_id != p1 && winner_id != p2 {
            return Err(EngineError::InvalidParameter);
        }
        let fee = g.entry_fee;
        let cut = g.owner_cut;
        proof {
            lemma_share_bounds(fee as int, cut as int);
        }
        let sh = compute_shares(fee, cut);

        let mut txn = store.begin();
        let ghost t_goal = settle_deltas(p1, p2, winner_id, self@.owner_id, fee as int, cut as int);

        let ghost t0 = txn@;
        assert(net_in(t0, p1) == 0);
        let _ = txn.adjust(p1, -fee);
        let ghost t1 = txn@;
        assert(t1 == accum(t0, p1, -(fee as int)));

        assert(net_in(t1, p2) == 0);
        let _ = txn.adjust(p2, -fee);
        let ghost t2 = txn@;
        assert(t2 == accum(t1, p2, -(fee as int)));

        assert(net_in(t2, winner_id) == -(fee as int));
        let _ = txn.adjust(winner_id, sh.winner_share);
        let ghost t3 = txn@;
        assert(t3 == accum(t2, winner_id, sh.winner_share as int));

        assert(i64::MIN <= net_in(t3, self.owner_id) + sh.owner_share <= i64::MAX);
        let owner = self.owner_id;
        let _ = txn.adjust(owner, sh.owner_share);
        assert(txn@ == t_goal);

        match store.commit(txn) {
            Ok(()) => {
                let g2 = Game { status: GameStatus::Settled, ..g };
                self.games.set(idx, g2);
                proof {
                    assert(self@.wf()) by {
                        assert(forall|i: int|
                            0 <= i < self@.games.len() && i != idx ==> (#[trigger] self@.games[i])
                                == old(self)@.games[i]);
                    }
                }
                Ok(
                    SettlementResult {
                        game_id,
                        winner_id,
                        pool: sh.pool,
                        owner_share: sh.owner_share,
                        winner_share: sh.winner_share,
                    },
                )
            },
            Err(_) => Err(EngineError::LedgerFailure),
        }
    }
}

} // verus!
