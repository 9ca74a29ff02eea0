//! The two unconditional strategies.

use vstd::prelude::*;
use vstd::string::StringExecFns;

use crate::action::Action;
use crate::rng::Rand;
use crate::strategies::Strategy;

verus! {

/// Always cooperates.
#[derive(Debug, Copy, Clone, PartialEq, Eq, Structural)]
pub struct Naive;

impl Strategy for Naive {
    fn next_move(
        &self,
        _other_actions: &Vec<Action>,
        _own_actions: &Vec<Action>,
        _rng: &mut Rand,
    ) -> (r: Action)
        ensures
            r == Action::Cooperate,
    {
        Action::Cooperate
    }

    fn name(&self) -> (r: String)
        ensures
            r@ == "Naive"@,
    {
        String::from_str("Naive")
    }
}

/// Always defects.
#[derive(Debug, Copy, Clone, PartialEq, Eq, Structural)]
pub struct Exploiter;

impl Strategy for Exploiter {
    fn next_move(
        &self,
        _other_actions: &Vec<Action>,
        _own_actions: &Vec<Action>,
        _rng: &mut Rand,
    ) -> (r: Action)
        ensures
            r == Action::Defect,
    {
        Action::Defect
    }

    fn name(&self) -> (r: String)
        ensures
            r@ == "Exploiter"@,
    {
        String::from_str("Exploiter")
    }
}

} // verus!
