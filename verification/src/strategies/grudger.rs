//! The two strategies that react once and for all to a single move.

use vstd::prelude::*;
use vstd::string::StringExecFns;

use crate::action::Action;
use crate::rng::Rand;
use crate::strategies::Strategy;

verus! {

/// Whether the history contains at least one defection.
pub open spec fn has_defect(s: Seq<Action>) -> bool {
    exists|i: int| 0 <= i < s.len() && s[i] == Action::Defect
}

/// Whether the history contains at least one cooperation.
pub open spec fn has_cooperate(s: Seq<Action>) -> bool {
    exists|i: int| 0 <= i < s.len() && s[i] == Action::Cooperate
}

/// Cooperates until the opponent has ever defected, then defects forever.
pub open spec fn grudger_policy(other: Seq<Action>) -> Action {
    if has_defect(other) {
        Action::Defect
    } else {
        Action::Cooperate
    }
}

/// Defects until the opponent has ever cooperated, then cooperates forever.
pub open spec fn reluctant_policy(other: Seq<Action>) -> Action {
    if has_cooperate(other) {
        Action::Cooperate
    } else {
        Action::Defect
    }
}

/// Whether `target` occurs anywhere in `v`.
fn contains_action(v: &Vec<Action>, target: Action) -> (r: bool)
    ensures
        r == exists|i: int| 0 <= i < v@.len() && v@[i] == target,
{
    let n = v.len();
    let mut i: usize = 0;
    while i < n
        invariant
            n == v@.len(),
            i <= n,
            forall|j: int| 0 <= j < i ==> v@[j] != target,
        decreases n - i,
    {
        if v[i] == target {
            return true;
        }
        i += 1;
    }
    false
}

/// Cooperates while the opponent's history is free of defections; once the
/// opponent has defected, defects forever.
#[derive(Debug, Copy, Clone, PartialEq, Eq, Structural)]
pub struct Grudger;

impl Strategy for Grudger {
    fn next_move(
        &self,
        other_actions: &Vec<Action>,
        _own_actions: &Vec<Action>,
        _rng: &mut Rand,
    ) -> (r: Action)
        ensures
            r == grudger_policy(other_actions@),
    {
        if contains_action(other_actions, Action::Defect) {
            Action::Defect
        } else {
            Action::Cooperate
        }
    }

    fn name(&self) -> (r: String)
        ensures
            r@ == "Grudger"@,
    {
        String::from_str("Grudger")
    }
}

/// Defects while the opponent's history is free of cooperation; once the
/// opponent has cooperated, cooperates forever.
#[derive(Debug, Copy, Clone, PartialEq, Eq, Structural)]
pub struct Reluctant;

impl Strategy for Reluctant {
    fn next_move(
        &self,
        other_actions: &Vec<Action>,
        _own_actions: &Vec<Action>,
        _rng: &mut Rand,
    ) -> (r: Action)
        ensures
            r == reluctant_policy(other_actions@),
    {
        if contains_action(other_actions, Action::Cooperate) {
            Action::Cooperate
        } else {
            Action::Defect
        }
    }

    fn name(&self) -> (r: String)
        ensures
            r@ == "Reluctant"@,
    {
        String::from_str("Reluctant")
    }
}

/// The grudge is permanent: once the opponent has defected anywhere in the
/// history, the grudger defects on that history and on every later one that
/// extends it, regardless of intervening cooperation.
pub proof fn lemma_grudger_holds_grudge(h: Seq<Action>, ext: Seq<Action>)
    requires
        has_defect(h),
        h.is_prefix_of(ext),
    ensures
        grudger_policy(ext) == Action::Defect,
{
    let i = choose|i: int| 0 <= i < h.len() && h[i] == Action::Defect;
    assert(ext[i] == h[i]);
    assert(has_defect(ext));
}

} // verus!
