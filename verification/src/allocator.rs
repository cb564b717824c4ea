//! The selection-and-copy state machine.
//!
//! An [`Allocator`] owns the candidate pool and the remaining byte budget.
//! Its caller runs the loop: it draws a candidate, reports the candidate's
//! current metadata to [`Allocator::decide`], and, when told to attempt the
//! copy, reports how the attempt went to [`Allocator::record_copy`]. Every
//! transition is specified exactly; in particular a drawn candidate leaves
//! the pool at the instant it is drawn, and the budget is charged only for
//! a copy that succeeded.

use vstd::prelude::*;

use crate::outcome::{CopyResult, DrawDecision, Outcome, RunState, StatInfo};
use crate::rng::rand_index;

verus! {

/// The randomized, budget-constrained selection machine.
pub struct Allocator {
    /// Candidates not yet drawn. Order carries no meaning.
    pub pool: Vec<String>,
    /// Bytes still available at the destination.
    pub remaining: u64,
    /// Bytes charged for copies so far.
    pub copied_bytes: u64,
    /// The budget the run started with.
    pub limit: u64,
    /// `Running` until the run reaches a terminal state.
    pub state: RunState,
}

impl Allocator {
    /// The budget accounting that every reachable `Allocator` satisfies:
    /// what was charged and what is left always make up the initial limit.
    pub open spec fn wf(self) -> bool {
        self.copied_bytes + self.remaining == self.limit
    }

    /// Starts a run over `pool` with `limit` bytes of budget.
    pub fn new(pool: Vec<String>, limit: u64) -> (a: Allocator)
        ensures
            a.wf(),
            a.pool@ == pool@,
            a.remaining == limit,
            a.copied_bytes == 0,
            a.limit == limit,
            a.state is Running,
    {
        Allocator { pool, remaining: limit, copied_bytes: 0, limit, state: RunState::Running }
    }

    /// Draws and removes the candidate at a caller-chosen position: the
    /// deterministic draw, for an injected source of randomness.
    pub fn draw_at(&mut self, i: usize) -> (p: String)
        requires
            old(self).state is Running,
            i < old(self).pool@.len(),
        ensures
            p == old(self).pool@[i as int],
            final(self).pool@ == old(self).pool@.remove(i as int),
            final(self).remaining == old(self).remaining,
            final(self).copied_bytes == old(self).copied_bytes,
            final(self).limit == old(self).limit,
            final(self).state == old(self).state,
    {
        self.pool.remove(i)
    }

    /// Draws and removes one candidate uniformly at random, or ends the run
    /// in `Exhausted` when the pool is empty. Whatever index the generator
    /// picks, the drawn candidate leaves the pool for good.
    pub fn draw(&mut self, rng: &mut rand::rngs::StdRng) -> (p: Option<String>)
        requires
            old(self).state is Running,
        ensures
            final(self).remaining == old(self).remaining,
            final(self).copied_bytes == old(self).copied_bytes,
            final(self).limit == old(self).limit,
            old(self).pool@.len() == 0 ==> {
                &&& p is None
                &&& final(self).state is Exhausted
                &&& final(self).pool@ == old(self).pool@
            },
            old(self).pool@.len() > 0 ==> {
                &&& final(self).state is Running
                &&& exists|i: int|
                    0 <= i < old(self).pool@.len() && p == Some(old(self).pool@[i])
                        && final(self).pool@ == old(self).pool@.remove(i)
            },
    {
        if self.pool.len() == 0 {
            self.state = RunState::Exhausted;
            None
        } else {
            let i: usize = rand_index(rng, self.pool.len());
            let drawn = self.pool.remove(i);
            Some(drawn)
        }
    }

    /// Decides what to do with the candidate just drawn, from its current
    /// metadata: a vanished or non-regular path is skipped; a size beyond
    /// the remaining budget halts the run in `Full` at once — the machine
    /// never searches the pool for a smaller candidate instead; otherwise
    /// the copy is to be attempted.
    pub fn decide(&mut self, stat: StatInfo) -> (d: DrawDecision)
        requires
            old(self).state is Running,
        ensures
            final(self).pool@ == old(self).pool@,
            final(self).remaining == old(self).remaining,
            final(self).copied_bytes == old(self).copied_bytes,
            final(self).limit == old(self).limit,
            stat is NotRegular ==> d == DrawDecision::SkipNotRegular && final(self).state is Running,
            stat matches StatInfo::Regular { size } ==> {
                if size > old(self).remaining {
                    d == DrawDecision::HaltFull && final(self).state is Full
                } else {
                    d == DrawDecision::TryCopy && final(self).state is Running
                }
            },
    {
        match stat {
            StatInfo::NotRegular => DrawDecision::SkipNotRegular,
            StatInfo::Regular { size } => {
                if size > self.remaining {
                    self.state = RunState::Full;
                    DrawDecision::HaltFull
                } else {
                    DrawDecision::TryCopy
                }
            },
        }
    }

    /// Records how an attempted copy went. Only a successful copy charges
    /// the budget, by the bytes it wrote; a name collision at the
    /// destination and a failed copy leave the budget untouched and the run
    /// running. A copy that somehow wrote more than the remaining budget
    /// (the file grew after it was measured) is charged the whole remainder,
    /// so the accounting never goes below zero.
    pub fn record_copy(&mut self, res: CopyResult) -> (o: Outcome)
        requires
            old(self).state is Running,
            old(self).wf(),
        ensures
            final(self).wf(),
            final(self).state is Running,
            final(self).pool@ == old(self).pool@,
            final(self).limit == old(self).limit,
            res is DestExists ==> o == Outcome::SkippedAlreadyExistsAtDestination
                && final(self).remaining == old(self).remaining
                && final(self).copied_bytes == old(self).copied_bytes,
            res is Failed ==> o == Outcome::SkippedCopyFailed
                && final(self).remaining == old(self).remaining
                && final(self).copied_bytes == old(self).copied_bytes,
            res matches CopyResult::Done { written } ==> {
                if written <= old(self).remaining {
                    &&& final(self).remaining == old(self).remaining - written
                    &&& final(self).copied_bytes == old(self).copied_bytes + written
                    &&& o == (Outcome::Copied { written })
                } else {
                    &&& final(self).remaining == 0
                    &&& final(self).copied_bytes == old(self).limit
                    &&& o == (Outcome::Copied { written: old(self).remaining })
                }
            },
    {
        match res {
            CopyResult::DestExists => Outcome::SkippedAlreadyExistsAtDestination,
            CopyResult::Failed => Outcome::SkippedCopyFailed,
            CopyResult::Done { written } => {
                let charged: u64 = if written <= self.remaining {
                    written
                } else {
                    self.remaining
                };
                self.remaining = self.remaining - charged;
                self.copied_bytes = self.copied_bytes + charged;
                Outcome::Copied { written: charged }
            },
        }
    }

    /// Bytes still available at the destination.
    pub fn remaining(&self) -> (r: u64)
        ensures
            r == self.remaining,
    {
        self.remaining
    }

    /// Bytes charged for successful copies so far.
    pub fn copied_bytes(&self) -> (r: u64)
        ensures
            r == self.copied_bytes,
    {
        self.copied_bytes
    }

    /// How many candidates are still in the pool.
    pub fn pool_len(&self) -> (n: usize)
        ensures
            n == self.pool@.len(),
    {
        self.pool.len()
    }

    /// The run's current state.
    pub fn state(&self) -> (s: RunState)
        ensures
            s == self.state,
    {
        self.state
    }
}

/// Law: however far a run has come, the bytes charged for copies never
/// exceed the budget the run started with.
pub proof fn lemma_copied_within_limit(a: Allocator)
    requires
        a.wf(),
    ensures
        a.copied_bytes <= a.limit,
{
}

/// Law: a candidate drawn once is never drawn again. Drawing removes one
/// occurrence from the pool; a candidate that occurred once is gone.
pub proof fn lemma_draw_removes_candidate(pool: Seq<String>, i: int)
    requires
        0 <= i < pool.len(),
        pool.to_multiset().count(pool[i]) == 1,
    ensures
        pool.remove(i).to_multiset().count(pool[i]) == 0,
        !pool.remove(i).contains(pool[i]),
{
    broadcast use vstd::seq_lib::group_to_multiset_ensures;

    assert(pool.remove(i).to_multiset() =~= pool.to_multiset().remove(pool[i]));
}

} // verus!
