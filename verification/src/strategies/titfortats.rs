//! The family of mirroring strategies.

use vstd::prelude::*;
use vstd::string::StringExecFns;

use crate::action::Action;
use crate::decimal::decimal_digits;
use crate::decimal::decimal_string;
use crate::rng::Rand;
use crate::strategies::Strategy;

verus! {

/// Cooperates on the first round, thereafter repeats the opponent's
/// previous action.
pub open spec fn tit_for_tat_policy(other: Seq<Action>) -> Action {
    if other.len() == 0 {
        Action::Cooperate
    } else {
        other.last()
    }
}

/// Defects on the first round, thereafter repeats the opponent's previous
/// action.
pub open spec fn suspicious_policy(other: Seq<Action>) -> Action {
    if other.len() == 0 {
        Action::Defect
    } else {
        other.last()
    }
}

/// Whether a defection occurs in the window of the `k - 1` opponent moves
/// that precede the most recent one: the half-open index range
/// `[len - k, len - 1)`.
pub open spec fn window_has_defect(other: Seq<Action>, k: nat) -> bool
    recommends
        1 <= k <= other.len(),
{
    exists|i: int| other.len() - k <= i < other.len() - 1 && other[i] == Action::Defect
}

/// Cooperates while fewer than `k` rounds have elapsed; afterwards defects
/// exactly when the window of the `k - 1` moves before the opponent's most
/// recent one holds a defection.  A width of zero never has enough history
/// and always cooperates.
pub open spec fn tit_for_tat_n_policy(k: nat, other: Seq<Action>) -> Action {
    if k == 0 || other.len() < k {
        Action::Cooperate
    } else if window_has_defect(other, k) {
        Action::Defect
    } else {
        Action::Cooperate
    }
}

/// Cooperates on the first round, thereafter repeats the opponent's
/// previous action.
#[derive(Debug, Copy, Clone, PartialEq, Eq, Structural)]
pub struct TitForTat;

impl Strategy for TitForTat {
    fn next_move(
        &self,
        other_actions: &Vec<Action>,
        _own_actions: &Vec<Action>,
        _rng: &mut Rand,
    ) -> (r: Action)
        ensures
            r == tit_for_tat_policy(other_actions@),
    {
        let n = other_actions.len();
        if n == 0 {
            Action::Cooperate
        } else {
            other_actions[n - 1]
        }
    }

    fn name(&self) -> (r: String)
        ensures
            r@ == "TitForTat"@,
    {
        String::from_str("TitForTat")
    }
}

/// Defects on the first round, thereafter repeats the opponent's previous
/// action.
#[derive(Debug, Copy, Clone, PartialEq, Eq, Structural)]
pub struct SuspicousTitForTat;

impl Strategy for SuspicousTitForTat {
    fn next_move(
        &self,
        other_actions: &Vec<Action>,
        _own_actions: &Vec<Action>,
        _rng: &mut Rand,
    ) -> (r: Action)
        ensures
            r == suspicious_policy(other_actions@),
    {
        let n = other_actions.len();
        if n == 0 {
            Action::Defect
        } else {
            other_actions[n - 1]
        }
    }

    fn name(&self) -> (r: String)
        ensures
            r@ == "SuspicousTFT"@,
    {
        String::from_str("SuspicousTFT")
    }
}

/// Maps a uniform draw over `{0, .., 9}` to the forgiveness decision after
/// an opposing defection: the single draw of 0 forgives, every other draw
/// retaliates.
fn forgive_outcome(draw: u64) -> (r: Action)
    ensures
        r == (if draw == 0 {
            Action::Cooperate
        } else {
            Action::Defect
        }),
{
    if draw == 0 {
        Action::Cooperate
    } else {
        Action::Defect
    }
}

/// Maps a uniform draw over `{0, .., 9}` to the sneak decision after an
/// opposing cooperation: the single draw of 0 defects, every other draw
/// cooperates along.
fn sneak_outcome(draw: u64) -> (r: Action)
    ensures
        r == (if draw == 0 {
            Action::Defect
        } else {
            Action::Cooperate
        }),
{
    if draw == 0 {
        Action::Defect
    } else {
        Action::Cooperate
    }
}

/// Mirrors the opponent, but when the opponent's last action was a
/// defection it forgives with one-in-ten probability.
#[derive(Debug, Copy, Clone, PartialEq, Eq, Structural)]
pub struct GenerousTitForTat;

impl Strategy for GenerousTitForTat {
    fn next_move(
        &self,
        other_actions: &Vec<Action>,
        _own_actions: &Vec<Action>,
        rng: &mut Rand,
    ) -> (r: Action)
        ensures
            other_actions@.len() == 0 || other_actions@.last() == Action::Cooperate ==> r
                == Action::Cooperate,
    {
        let n = other_actions.len();
        if n == 0 {
            return Action::Cooperate;
        }
        match other_actions[n - 1] {
            Action::Cooperate => Action::Cooperate,
            Action::Defect => forgive_outcome(rng.draw_below(10)),
        }
    }

    fn name(&self) -> (r: String)
        ensures
            r@ == "GenerousTFT"@,
    {
        String::from_str("GenerousTFT")
    }
}

/// Mirrors the opponent, but when the opponent's last action was a
/// cooperation it sneaks in a defection with one-in-ten probability.
#[derive(Debug, Copy, Clone, PartialEq, Eq, Structural)]
pub struct CheeckyTitForTat;

impl Strategy for CheeckyTitForTat {
    fn next_move(
        &self,
        other_actions: &Vec<Action>,
        _own_actions: &Vec<Action>,
        rng: &mut Rand,
    ) -> (r: Action)
        ensures
            other_actions@.len() == 0 ==> r == Action::Cooperate,
            other_actions@.len() > 0 && other_actions@.last() == Action::Defect ==> r
                == Action::Defect,
    {
        let n = other_actions.len();
        if n == 0 {
            return Action::Cooperate;
        }
        match other_actions[n - 1] {
            Action::Cooperate => sneak_outcome(rng.draw_below(10)),
            Action::Defect => Action::Defect,
        }
    }

    fn name(&self) -> (r: String)
        ensures
            r@ == "CheeckyTFT"@,
    {
        String::from_str("CheeckyTFT")
    }
}

/// Cooperates while fewer rounds than its width have elapsed; afterwards
/// defects exactly when one of the opponent's `k - 1` moves preceding the
/// most recent one was a defection.
#[derive(Debug, Copy, Clone, PartialEq, Eq, Structural)]
pub struct TitForTatN(pub usize);

impl Strategy for TitForTatN {
    fn next_move(
        &self,
        other_actions: &Vec<Action>,
        _own_actions: &Vec<Action>,
        _rng: &mut Rand,
    ) -> (r: Action)
        ensures
            r == tit_for_tat_n_policy(self.0 as nat, other_actions@),
    {
        let k = self.0;
        let n = other_actions.len();
        if k == 0 || n < k {
            return Action::Cooperate;
        }
        let mut i: usize = n - k;
        while i < n - 1
            invariant
                n == other_actions@.len(),
                k == self.0,
                1 <= k <= n,
                n - k <= i <= n - 1,
                forall|j: int| n - k <= j < i ==> other_actions@[j] != Action::Defect,
            decreases n - 1 - i,
        {
            if other_actions[i] == Action::Defect {
                assert(window_has_defect(other_actions@, k as nat));
                return Action::Defect;
            }
            i += 1;
        }
        assert(!window_has_defect(other_actions@, k as nat));
        Action::Cooperate
    }

    fn name(&self) -> (r: String)
        ensures
            r@ == "TitForTat"@ + decimal_digits(self.0 as nat),
    {
        let digits = decimal_string(self.0 as u64);
        let mut s = String::from_str("TitForTat");
        s.append(digits.as_str());
        s
    }
}

/// The mirroring law: with no history tit-for-tat cooperates; with any
/// history it replays the opponent's most recent action, defecting after a
/// defection and cooperating after a cooperation.
pub proof fn lemma_tit_for_tat(h: Seq<Action>)
    ensures
        h.len() == 0 ==> tit_for_tat_policy(h) == Action::Cooperate,
        h.len() > 0 && h.last() == Action::Defect ==> tit_for_tat_policy(h) == Action::Defect,
        h.len() > 0 && h.last() == Action::Cooperate ==> tit_for_tat_policy(h)
            == Action::Cooperate,
{
}

} // verus!
