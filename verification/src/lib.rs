//! A two-player wagering escrow.
//!
//! Players stake an entry fee into a game; when the game ends, the pooled
//! stake is split between the winner and a platform owner account, and the
//! transfers are applied to user balances as one all-or-nothing unit.
//!
//! The crate is organised leaves first:
//! - [`shares`]: the pool and share arithmetic, with its conservation law;
//! - [`ledger`]: the balance store and its transactional interface;
//! - [`game`]: game records and their lifecycle states;
//! - [`engine`]: the settlement engine tying the two together;
//! - [`laws`]: proofs of the engine's cross-operation guarantees.
//!
//! All amounts are integers in the currency's minor unit; balances are
//! signed, and overdraft is permitted (a debit never fails for lack of
//! funds).

mod table;

pub mod errors;
pub mod shares;
pub mod ledger;
pub mod game;
pub mod engine;
pub mod laws;

pub use errors::EngineError;
pub use game::{Game, GameStatus};
pub use ledger::{LedgerStore, Txn};
pub use engine::{Engine, SettlementResult};
