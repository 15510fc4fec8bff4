use vstd::prelude::*;
use vstd::arithmetic::div_mod::{lemma_div_by_multiple, lemma_div_is_ordered, lemma_div_pos_is_pos};
use vstd::arithmetic::mul::{lemma_mul_inequality, lemma_mul_nonnegative};

verus! {

/// Largest entry fee, in minor currency units, that the engine accepts.
///
/// The share computation forms `2 * entry_fee * owner_cut` with
/// `owner_cut <= 100`, so the fee is capped at `i64::MAX / 200` to keep that
/// product within `i64`.
pub const MAX_ENTRY_FEE: i64 = 46_116_860_184_273_879;

/// The total stake of a two-player game: both entry fees.
pub open spec fn pool_of(fee: int) -> int {
    2 * fee
}

/// The platform's share of the pool: `owner_cut` percent, rounded down to
/// the minor unit. The winner's share absorbs the remainder, so the two
/// shares always reconcile exactly (see [`lemma_conservation`]).
pub open spec fn owner_share_of(fee: int, cut: int) -> int {
    pool_of(fee) * cut / 100
}

/// The winner's share of the pool: whatever the owner's share leaves.
pub open spec fn winner_share_of(fee: int, cut: int) -> int {
    pool_of(fee) - owner_share_of(fee, cut)
}

/// Conservation: the owner's share and the winner's share together are
/// exactly the pool, `entry_fee * 2` — no rounding leakage, whatever the
/// fee and the cut.
pub proof fn lemma_conservation(fee: int, cut: int)
    ensures
        owner_share_of(fee, cut) + winner_share_of(fee, cut) == pool_of(fee),
        pool_of(fee) == 2 * fee,
{
}

/// For a fee and a cut the engine accepts, both shares lie between zero and
/// the pool.
pub proof fn lemma_share_bounds(fee: int, cut: int)
    requires
        0 <= fee,
        0 <= cut <= 100,
    ensures
        0 <= owner_share_of(fee, cut) <= pool_of(fee),
        0 <= winner_share_of(fee, cut) <= pool_of(fee),
{
    let pool = pool_of(fee);
    lemma_mul_nonnegative(pool, cut);
    lemma_div_is_ordered(0, pool * cut, 100);
    lemma_mul_inequality(cut, 100, pool);
    lemma_div_is_ordered(pool * cut, pool * 100, 100);
    lemma_div_by_multiple(pool, 100);
}

/// The three amounts one settlement moves, all in minor units.
#[derive(Clone, Copy, Debug, PartialEq, Eq, Structural)]
pub struct Shares {
    /// Both entry fees together.
    pub pool: i64,
    /// The platform's cut of the pool.
    pub owner_share: i64,
    /// What the winner receives.
    pub winner_share: i64,
}

/// Computes the pool and its division between owner and winner.
pub fn compute_shares(entry_fee: i64, owner_cut: i64) -> (s: Shares)
    requires
        0 <= entry_fee <= MAX_ENTRY_FEE,
        0 <= owner_cut <= 100,
    ensures
        s.pool == pool_of(entry_fee as int),
        s.owner_share == owner_share_of(entry_fee as int, owner_cut as int),
        s.winner_share == winner_share_of(entry_fee as int, owner_cut as int),
{
    let pool: i64 = 2 * entry_fee;
    proof {
        lemma_mul_inequality(owner_cut as int, 100, pool as int);
        lemma_mul_nonnegative(pool as int, owner_cut as int);
    }
    let scaled: u64 = (pool as u64) * (owner_cut as u64);
    let owner_share_u: u64 = scaled / 100;
    proof {
        lemma_div_is_ordered(0, scaled as int, 100);
        lemma_div_is_ordered(scaled as int, (pool as int) * 100, 100);
        lemma_div_by_multiple(pool as int, 100);
    }
    let owner_share: i64 = owner_share_u as i64;
    let winner_share: i64 = pool - owner_share;
    Shares { pool, owner_share, winner_share }
}

} // verus!
