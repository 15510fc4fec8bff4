use vstd::prelude::*;
use crate::errors::EngineError;
use crate::table::Table;

verus! {

/// Adds two amounts when the sum stays within `i64`, and reports the
/// overflow otherwise.
pub fn checked_add_amount(a: i64, b: i64) -> (r: Option<i64>)
    ensures
        r == if i64::MIN <= a + b <= i64::MAX {
            Some((a + b) as i64)
        } else {
            None::<i64>
        },
{
    if b >= 0 {
        if a <= i64::MAX - b {
            Some(a + b)
        } else {
            None
        }
    } else {
        if a >= i64::MIN - b {
            Some(a + b)
        } else {
            None
        }
    }
}

/// The pending net delta a transaction holds for a user: zero for a user it
/// never touched.
pub open spec fn net_in(t: Map<u64, i64>, u: u64) -> int {
    if t.dom().contains(u) {
        t[u] as int
    } else {
        0
    }
}

/// One adjustment folded into a transaction's pending deltas.
pub open spec fn accum(t: Map<u64, i64>, u: u64, d: int) -> Map<u64, i64> {
    t.insert(u, (net_in(t, u) + d) as i64)
}

/// A commit can be applied whole: every account a transaction touches
/// exists, and every adjusted balance stays within `i64`.
pub open spec fn can_commit(m: Map<u64, i64>, t: Map<u64, i64>) -> bool {
    forall|u: u64| #[trigger] t.dom().contains(u) ==> m.dom().contains(u) && i64::MIN <= m[u] + t[u]
        <= i64::MAX
}

/// The balances after a commit: each touched account moved by its net
/// delta, every other account untouched, no account created or dropped.
pub open spec fn committed(m: Map<u64, i64>, t: Map<u64, i64>) -> Map<u64, i64> {
    Map::new(
        |u: u64| m.dom().contains(u),
        |u: u64|
            if t.dom().contains(u) {
                (m[u] + t[u]) as i64
            } else {
                m[u]
            },
    )
}

/// An isolated mutation context: deltas accumulate here and touch no store
/// until [`LedgerStore::commit`] applies them all at once. Discarding a
/// transaction without committing it is a rollback — no store ever sees its
/// deltas.
pub struct Txn {
    pending: Table,
}

impl View for Txn {
    type V = Map<u64, i64>;

    closed spec fn view(&self) -> Map<u64, i64> {
        self.pending@
    }
}

impl Txn {
    pub closed spec fn wf(self) -> bool {
        self.pending.wf()
    }

    /// Folds a delta for one user into the pending deltas. Fails, changing
    /// nothing, only when the user's accumulated net delta would leave
    /// `i64`.
    pub fn adjust(&mut self, user_id: u64, delta: i64) -> (r: Result<(), EngineError>)
        requires
            old(self).wf(),
        ensures
            final(self).wf(),
            if i64::MIN <= net_in(old(self)@, user_id) + delta <= i64::MAX {
                r == Ok::<(), EngineError>(()) && final(self)@ == accum(
                    old(self)@,
                    user_id,
                    delta as int,
                )
            } else {
                r == Err::<(), EngineError>(EngineError::LedgerFailure) && final(self)@ == old(
                    self,
                )@
            },
    {
        let cur: i64 = match self.pending.get(user_id) {
            Some(v) => v,
            None => 0,
        };
        match checked_add_amount(cur, delta) {
            Some(next) => {
                self.pending.set(user_id, next);
                Ok(())
            },
            None => Err(EngineError::LedgerFailure),
        }
    }

    /// Discards the pending deltas. A transaction touches no store until it
    /// is committed, so dropping it — with or without this call — rolls it
    /// back.
    pub fn rollback(self) {
    }
}

/// The ledger: a durable mapping from user id to balance, in minor units.
/// Balances are signed and overdraft is permitted; an adjustment fails only
/// when the account is missing or the balance would leave `i64`.
pub struct LedgerStore {
    accounts: Table,
}

impl View for LedgerStore {
    type V = Map<u64, i64>;

    closed spec fn view(&self) -> Map<u64, i64> {
        self.accounts@
    }
}

impl LedgerStore {
    pub closed spec fn wf(self) -> bool {
        self.accounts.wf()
    }

    /// An empty ledger, with no accounts.
    pub fn new() -> (s: LedgerStore)
        ensures
            s.wf(),
            s@ == Map::<u64, i64>::empty(),
    {
        LedgerStore { accounts: Table::new() }
    }

    /// Creates an account with an opening balance. Fails with `Conflict`,
    /// changing nothing, when the account already exists.
    pub fn provision_account(&mut self, user_id: u64, balance: i64) -> (r: Result<
        (),
        EngineError,
    >)
        requires
            old(self).wf(),
        ensures
            final(self).wf(),
            if old(self)@.dom().contains(user_id) {
                r == Err::<(), EngineError>(EngineError::Conflict) && final(self)@ == old(self)@
            } else {
                r == Ok::<(), EngineError>(()) && final(self)@ == old(self)@.insert(
                    user_id,
                    balance,
                )
            },
    {
        match self.accounts.get(user_id) {
            Some(_) => Err(EngineError::Conflict),
            None => {
                self.accounts.set(user_id, balance);
                Ok(())
            },
        }
    }

    /// The balance of an account, if it exists.
    pub fn balance_of(&self, user_id: u64) -> (r: Option<i64>)
        requires
            self.wf(),
        ensures
            r == if self@.dom().contains(user_id) {
                Some(self@[user_id])
            } else {
                None::<i64>
            },
    {
        self.accounts.get(user_id)
    }

    /// Opens an isolated mutation context with no pending deltas.
    pub fn begin(&self) -> (t: Txn)
        ensures
            t.wf(),
            t@ == Map::<u64, i64>::empty(),
    {
        Txn { pending: Table::new() }
    }

    /// Applies a transaction's deltas as one all-or-nothing unit: either
    /// every account it touches exists and every adjusted balance fits, and
    /// all move together, or the store is left exactly as it was and
    /// `LedgerFailure` comes back.
    pub fn commit(&mut self, txn: Txn) -> (r: Result<(), EngineError>)
        requires
            old(self).wf(),
            txn.wf(),
        ensures
            final(self).wf(),
            if can_commit(old(self)@, txn@) {
                r == Ok::<(), EngineError>(()) && final(self)@ == committed(old(self)@, txn@)
            } else {
                r == Err::<(), EngineError>(EngineError::LedgerFailure) && final(self)@ == old(
                    self,
                )@
            },
    {
        let ghost m0 = self@;
        let ghost tseq = txn.pending.entries@;
        let n = txn.pending.len();

        // First pass: check every pending delta can be applied, touching
        // nothing.
        let mut i: usize = 0;
        while i < n
            invariant
                self.wf(),
                txn.wf(),
                self@ == m0,
                tseq == txn.pending.entries@,
                n == tseq.len(),
                0 <= i <= n,
                forall|j: int| 0 <= j < i ==> m0.dom().contains((#[trigger] tseq[j]).0)
                    && i64::MIN <= m0[tseq[j].0] + tseq[j].1 <= i64::MAX,
            decreases n - i,
        {
            let (u, d) = txn.pending.entry_at(i);
            proof {
                txn.pending.lemma_entry_in_view(i as int);
            }
            match self.accounts.get(u) {
                None => {
                    proof {
                        assert(txn@.dom().contains(u) && !m0.dom().contains(u));
                    }
                    return Err(EngineError::LedgerFailure);
                },
                Some(b) => {
                    if checked_add_amount(b, d).is_none() {
                        proof {
                            assert(txn@.dom().contains(u) && !(i64::MIN <= m0[u] + txn@[u]
                                <= i64::MAX));
                        }
                        return Err(EngineError::LedgerFailure);
                    }
                },
            }
            i += 1;
        }
        proof {
            assert forall|u: u64| #[trigger] txn@.dom().contains(u) implies m0.dom().contains(u)
                && i64::MIN <= m0[u] + txn@[u] <= i64::MAX by {
                txn.pending.lemma_key_has_entry(u);
                let j = choose|j: int| 0 <= j < tseq.len() && (#[trigger] tseq[j]).0 == u;
                txn.pending.lemma_entry_in_view(j);
            }
        }

        // Second pass: apply every pending delta; nothing can fail now.
        let mut i: usize = 0;
        while i < n
            invariant
                self.wf(),
                txn.wf(),
                tseq == txn.pending.entries@,
                n == tseq.len(),
                0 <= i <= n,
                can_commit(m0, txn@),
                self@.dom() == m0.dom(),
                forall|u: u64| #[trigger] m0.dom().contains(u) ==> if exists|j: int|
                    0 <= j < i && (#[trigger] tseq[j]).0 == u {
                    self@[u] == (m0[u] + txn@[u]) as i64
                } else {
                    self@[u] == m0[u]
                },
            decreases n - i,
        {
            let (u, d) = txn.pending.entry_at(i);
            proof {
                txn.pending.lemma_entry_in_view(i as int);
                assert(!(exists|j: int| 0 <= j < i && (#[trigger] tseq[j]).0 == u)) by {
                    if exists|j: int| 0 <= j < i && (#[trigger] tseq[j]).0 == u {
                        let j = choose|j: int| 0 <= j < i && (#[trigger] tseq[j]).0 == u;
                        assert(tseq[j].0 != tseq[i as int].0);
                    }
                }
            }
            let b = match self.accounts.get(u) {
                Some(b) => b,
                None => {
                    proof {
                        assert(false);
                    }
                    return Err(EngineError::LedgerFailure);
                },
            };
            let next = match checked_add_amount(b, d) {
                Some(next) => next,
                None => {
                    proof {
                        assert(false);
                    }
                    return Err(EngineError::LedgerFailure);
                },
            };
            self.accounts.set(u, next);
            proof {
                assert forall|w: u64| #[trigger] m0.dom().contains(w) implies if exists|j: int|
                    0 <= j < i + 1 && (#[trigger] tseq[j]).0 == w {
                    self@[w] == (m0[w] + txn@[w]) as i64
                } else {
                    self@[w] == m0[w]
                } by {
                    if w == u {
                        assert(tseq[i as int].0 == w);
                    } else {
                        if exists|j: int| 0 <= j < i + 1 && (#[trigger] tseq[j]).0 == w {
                            let j = choose|j: int| 0 <= j < i + 1 && (#[trigger] tseq[j]).0 == w;
                            assert(0 <= j < i && tseq[j].0 == w);
                        }
                    }
                }
                assert(self@.dom() =~= m0.dom());
            }
            i += 1;
        }
        proof {
            assert forall|u: u64| #[trigger] txn@.dom().contains(u) implies exists|j: int|
                0 <= j < n && (#[trigger] tseq[j]).0 == u by {
                txn.pending.lemma_key_has_entry(u);
            }
            assert forall|u: u64| (exists|j: int| 0 <= j < n && (#[trigger] tseq[j]).0 == u)
                implies #[trigger] txn@.dom().contains(u) by {
                let j = choose|j: int| 0 <= j < n && (#[trigger] tseq[j]).0 == u;
                txn.pending.lemma_entry_in_view(j);
            }
            assert(self@ =~= committed(m0, txn@));
        }
        Ok(())
    }
}

} // verus!
