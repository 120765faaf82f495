//! The score, and the difficulty that follows from the eliminations.

use vstd::prelude::*;
use crate::geometry::GRID_WIDTH;

verus! {

/// Points for eliminating `n` enemies in one action: 100 for the first, 200
/// for the second, and so on.
pub open spec fn batch_points(n: nat) -> nat
    decreases n,
{
    if n == 0 {
        0
    } else {
        batch_points((n - 1) as nat) + 100 * n
    }
}

/// The points of a batch in closed form, and that a larger batch is worth
/// no less.
pub proof fn lemma_batch_points(n: nat)
    ensures
        batch_points(n) == 50 * n * (n + 1),
        forall|m: nat| m <= n ==> batch_points(m) <= batch_points(n),
    decreases n,
{
    if n > 0 {
        let m = (n - 1) as nat;
        lemma_batch_points(m);
        assert(50 * m * (m + 1) + 100 * (m + 1) == 50 * (m + 1) * (m + 1 + 1)) by (nonlinear_arith);
        assert(batch_points(n) == batch_points(m) + 100 * n);
    } else {
        assert(50 * n * (n + 1) == 0) by (nonlinear_arith)
            requires
                n == 0,
        ;
    }
}

/// Most points that an elimination can bring: no batch is longer than the
/// field is wide, so none of its enemies is worth more than this.
pub open spec fn points_cap() -> nat {
    50 * (GRID_WIDTH as nat)
}

/// A batch shorter than the field is wide brings at most the cap for each
/// of its enemies.
pub proof fn lemma_batch_within_cap(n: nat)
    requires
        n < GRID_WIDTH,
    ensures
        batch_points(n) <= points_cap() * n,
{
    lemma_batch_points(n);
    assert(50 * n * (n + 1) <= 50 * 18 * n) by (nonlinear_arith)
        requires
            n + 1 <= 18,
    ;
}

/// Eliminations that raise the difficulty by one level.
pub const ELIMINATIONS_PER_LEVEL: u64 = 20;

/// The difficulty level after `total` eliminations: the power to which the
/// spawn interval's factor of nine tenths is raised.
pub open spec fn level_of(total: nat) -> nat {
    total / (ELIMINATIONS_PER_LEVEL as nat)
}

pub fn difficulty_level(total: u64) -> (level: u64)
    ensures
        level == level_of(total as nat),
{
    total / ELIMINATIONS_PER_LEVEL
}

/// The running score, in a type wide enough for every score that a round
/// can reach.
pub struct Score {
    points: u128,
}

impl Score {
    pub closed spec fn value(&self) -> nat {
        self.points as nat
    }

    pub fn new() -> (s: Score)
        ensures
            s.value() == 0,
    {
        Score { points: 0 }
    }

    pub fn points(&self) -> (r: u128)
        ensures
            r == self.value(),
    {
        self.points
    }

    /// Adds the points for a batch of `n` eliminations.
    pub fn add_points(&mut self, n: u64)
        requires
            old(self).value() + batch_points(n as nat) <= u128::MAX,
        ensures
            final(self).value() == old(self).value() + batch_points(n as nat),
    {
        let mut i: u64 = 0;
        proof {
            lemma_batch_points(n as nat);
        }
        while i < n
            invariant
                i <= n,
                self.points == old(self).points + batch_points(i as nat),
                old(self).points + batch_points(n as nat) <= u128::MAX,
                forall|m: nat| m <= n ==> batch_points(m) <= batch_points(n as nat),
            decreases n - i,
        {
            i += 1;
            proof {
                assert(batch_points(i as nat) == batch_points((i - 1) as nat) + 100 * i);
                assert(batch_points(i as nat) <= batch_points(n as nat));
            }
            self.points += 100 * (i as u128);
        }
    }
}

} // verus!
