//! The probing strategy.

use vstd::prelude::*;
use vstd::string::StringExecFns;

use crate::action::Action;
use crate::rng::Rand;
use crate::strategies::Strategy;

verus! {

/// The detective's policy: a fixed opening of Cooperate, Defect, Cooperate,
/// Cooperate over the first four rounds; from then on, if the opponent
/// answered the probe of round 2 with a defection it mirrors the opponent's
/// most recent move, otherwise it defects forever, punishing a
/// non-retaliator.
pub open spec fn detective_policy(other: Seq<Action>) -> Action {
    if other.len() == 1 {
        Action::Defect
    } else if other.len() <= 3 {
        Action::Cooperate
    } else if other[2] == Action::Defect {
        other.last()
    } else {
        Action::Defect
    }
}

/// Opens with Cooperate, Defect, Cooperate, Cooperate; afterwards plays
/// tit-for-tat if the opponent ever answered the probe with a defection,
/// and exploits otherwise.
#[derive(Debug, Copy, Clone, PartialEq, Eq, Structural)]
pub struct Detective;

impl Strategy for Detective {
    fn next_move(
        &self,
        other_actions: &Vec<Action>,
        _own_actions: &Vec<Action>,
        _rng: &mut Rand,
    ) -> (r: Action)
        ensures
            r == detective_policy(other_actions@),
    {
        let n = other_actions.len();
        if n == 1 {
            Action::Defect
        } else if n <= 3 {
            Action::Cooperate
        } else if other_actions[2] == Action::Defect {
            other_actions[n - 1]
        } else {
            Action::Defect
        }
    }

    fn name(&self) -> (r: String)
        ensures
            r@ == "Detective"@,
    {
        String::from_str("Detective")
    }
}

/// After the four opening rounds the detective punishes a non-retaliator:
/// on any history of length at least four it defects both when the opponent
/// has defected throughout and when the opponent has cooperated throughout.
pub proof fn lemma_detective_punishes_uniform_opponents(h: Seq<Action>)
    requires
        h.len() >= 4,
    ensures
        (forall|i: int| 0 <= i < h.len() ==> h[i] == Action::Defect) ==> detective_policy(h)
            == Action::Defect,
        (forall|i: int| 0 <= i < h.len() ==> h[i] == Action::Cooperate) ==> detective_policy(h)
            == Action::Defect,
{
}

} // verus!
