use vstd::prelude::*;
use crate::shares::MAX_ENTRY_FEE;

verus! {

/// Where a game stands in its lifecycle. The status only moves forward:
/// `Waiting` to `Active` to `Settled`, never skipping back.
#[derive(Clone, Copy, Debug, PartialEq, Eq, Structural)]
pub enum GameStatus {
    /// Created; the second player has not joined.
    Waiting,
    /// Under way; settlement is the only transition left.
    Active,
    /// Settled; the record is immutable from here on.
    Settled,
}

/// One game record.
#[derive(Clone, Copy, Debug)]
pub struct Game {
    /// Assigned by the engine at creation; never changes.
    pub id: u64,
    /// The creating player; set at creation.
    pub player1_id: u64,
    /// The joining player; set exactly once, at join time.
    pub player2_id: Option<u64>,
    /// What each player stakes, in minor units; fixed at creation.
    pub entry_fee: i64,
    /// The platform's percentage of the pool; fixed at creation.
    pub owner_cut: i64,
    pub status: GameStatus,
}

impl Game {
    /// What every game record the engine hands out satisfies.
    pub open spec fn wf(self) -> bool {
        &&& 0 <= self.entry_fee <= MAX_ENTRY_FEE
        &&& 0 <= self.owner_cut <= 100
        &&& (self.status is Waiting ==> self.player2_id is None)
        &&& (self.status is Settled ==> self.player2_id is Some)
        &&& (match self.player2_id {
            Some(p2) => p2 != self.player1_id,
            None => true,
        })
    }
}

} // verus!
