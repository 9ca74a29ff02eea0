//! The move alphabet, the payoff table and the noise model.

use vstd::prelude::*;

use crate::rng::Rand;

verus! {

/// The denominator of the noise scale: a noise level `p` stands for a flip
/// probability of `p / NOISE_DENOM`, so valid levels lie in
/// `[0, NOISE_DENOM]`.
pub const NOISE_DENOM: u64 = 1_000_000;

/// What noise does to an action once the uniform roll is fixed: the action
/// flips exactly when the roll falls strictly below the noise level.
pub open spec fn noise_spec(a: Action, roll: u64, level: u64) -> Action {
    if roll < level {
        a.flip_spec()
    } else {
        a
    }
}

/// One move in a round: cooperate with the opponent or defect.
#[derive(Debug, Copy, Clone, PartialEq, Eq, Structural)]
pub enum Action {
    Cooperate,
    Defect,
}

impl Action {
    /// The opposite move.
    pub open spec fn flip_spec(self) -> Action {
        match self {
            Action::Cooperate => Action::Defect,
            Action::Defect => Action::Cooperate,
        }
    }

    /// Returns the opposite move.
    pub fn flip(&self) -> (r: Action)
        ensures
            r == self.flip_spec(),
    {
        match self {
            Action::Cooperate => Action::Defect,
            Action::Defect => Action::Cooperate,
        }
    }

    /// The noise outcome for a roll that has already been drawn.
    pub fn noise_outcome(&self, roll: u64, level: u64) -> (r: Action)
        ensures
            r == noise_spec(*self, roll, level),
    {
        if roll < level {
            self.flip()
        } else {
            *self
        }
    }

    /// Possibly corrupts the observed action: draws one uniform roll from
    /// `[0, NOISE_DENOM)` and flips the action exactly when the roll falls
    /// strictly below `level`.  A level of 0 never flips; a level of
    /// `NOISE_DENOM` always flips.
    pub fn noise(&self, level: u64, rng: &mut Rand) -> (r: Action)
        requires
            level <= NOISE_DENOM,
        ensures
            r == *self || r == self.flip_spec(),
            level == 0 ==> r == *self,
            level == NOISE_DENOM ==> r == self.flip_spec(),
    {
        let roll = rng.draw_below(NOISE_DENOM);
        self.noise_outcome(roll, level)
    }
}

/// The classic prisoner's dilemma payoff table, as
/// `(left points, right points)` for one joint outcome:
/// mutual cooperation pays (3,3), mutual defection (1,1),
/// and a unilateral defection pays 5 to the defector and 0 to the other side.
pub open spec fn payoff_spec(left: Action, right: Action) -> (int, int) {
    match (left, right) {
        (Action::Cooperate, Action::Cooperate) => (3, 3),
        (Action::Cooperate, Action::Defect) => (0, 5),
        (Action::Defect, Action::Cooperate) => (5, 0),
        (Action::Defect, Action::Defect) => (1, 1),
    }
}

/// Scores one round from the two true actions.
pub fn payoff(left: Action, right: Action) -> (r: (u64, u64))
    ensures
        r.0 == payoff_spec(left, right).0,
        r.1 == payoff_spec(left, right).1,
{
    match (left, right) {
        (Action::Cooperate, Action::Cooperate) => (3, 3),
        (Action::Cooperate, Action::Defect) => (0, 5),
        (Action::Defect, Action::Cooperate) => (5, 0),
        (Action::Defect, Action::Defect) => (1, 1),
    }
}

/// The payoff table is symmetric: swapping the players swaps the points.
/// In particular both mutual outcomes pay both sides the same, and the
/// unilateral outcomes are (5,0) and (0,5) of each other.
pub proof fn lemma_payoff_symmetric(a: Action, b: Action)
    ensures
        payoff_spec(a, b).0 == payoff_spec(b, a).1,
        payoff_spec(a, b).1 == payoff_spec(b, a).0,
{
}

/// Each side is credited exactly one per-round payoff, between 0 and the
/// maximum single-round payoff of 5.
pub proof fn lemma_payoff_bounds(a: Action, b: Action)
    ensures
        0 <= payoff_spec(a, b).0 <= 5,
        0 <= payoff_spec(a, b).1 <= 5,
{
}

/// The joint payoff of one round is 6 under mutual cooperation, 2 under
/// mutual defection and 5 under a unilateral defection, so it always lies
/// between 2 and 6.
pub proof fn lemma_payoff_joint(a: Action, b: Action)
    ensures
        2 <= payoff_spec(a, b).0 + payoff_spec(a, b).1 <= 6,
{
}

} // verus!
