//! The strategies that draw from the random source.

use vstd::prelude::*;
use vstd::string::StringExecFns;

use crate::action::Action;
use crate::rng::Rand;
use crate::strategies::Strategy;

verus! {

/// Maps a uniform draw over `{0, 1}` to a move, 0 to Cooperate.
pub(crate) fn action_from_draw(draw: u64) -> (r: Action)
    ensures
        r == (if draw == 0 {
            Action::Cooperate
        } else {
            Action::Defect
        }),
{
    if draw == 0 {
        Action::Cooperate
    } else {
        Action::Defect
    }
}

/// Picks each move uniformly at random.
#[derive(Debug, Copy, Clone, PartialEq, Eq, Structural)]
pub struct Random;

impl Strategy for Random {
    fn next_move(
        &self,
        _other_actions: &Vec<Action>,
        _own_actions: &Vec<Action>,
        rng: &mut Rand,
    ) -> Action {
        action_from_draw(rng.draw_below(2))
    }

    fn name(&self) -> (r: String)
        ensures
            r@ == "Random"@,
    {
        String::from_str("Random")
    }
}

/// Opens with a random move, then always plays the opposite of its own
/// previous move.
#[derive(Debug, Copy, Clone, PartialEq, Eq, Structural)]
pub struct FlipFlop;

impl Strategy for FlipFlop {
    fn next_move(
        &self,
        _other_actions: &Vec<Action>,
        own_actions: &Vec<Action>,
        rng: &mut Rand,
    ) -> (r: Action)
        ensures
            own_actions@.len() > 0 ==> r == own_actions@.last().flip_spec(),
    {
        let n = own_actions.len();
        if n > 0 {
            own_actions[n - 1].flip()
        } else {
            action_from_draw(rng.draw_below(2))
        }
    }

    fn name(&self) -> (r: String)
        ensures
            r@ == "FlipFlop"@,
    {
        String::from_str("FlipFlop")
    }
}

} // verus!
