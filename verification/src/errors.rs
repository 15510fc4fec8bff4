use vstd::prelude::*;

verus! {

/// Why an engine or ledger operation was refused.
///
/// - `InvalidParameter`: malformed input; retrying without correcting the
///   arguments cannot succeed.
/// - `NotFound`: no game with the given id.
/// - `Conflict`: the requested state transition is no longer valid given the
///   current state; safe to retry after re-reading the game.
/// - `LedgerFailure`: a balance mutation could not be applied; the enclosing
///   operation was rolled back whole.
#[derive(Clone, Copy, Debug, PartialEq, Eq, Structural)]
pub enum EngineError {
    InvalidParameter,
    NotFound,
    Conflict,
    LedgerFailure,
}

} // verus!
