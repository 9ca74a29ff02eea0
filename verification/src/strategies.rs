//! The strategy decision contract and the built-in strategies.

mod base;
mod detective;
mod grudger;
mod random;
mod titfortats;

pub use base::Exploiter;
pub use base::Naive;
pub use detective::Detective;
pub use detective::detective_policy;
pub use detective::lemma_detective_punishes_uniform_opponents;
pub use grudger::Grudger;
pub use grudger::Reluctant;
pub use grudger::grudger_policy;
pub use grudger::has_cooperate;
pub use grudger::has_defect;
pub use grudger::lemma_grudger_holds_grudge;
pub use grudger::reluctant_policy;
pub use random::FlipFlop;
pub use random::Random;
pub use titfortats::CheeckyTitForTat;
pub use titfortats::GenerousTitForTat;
pub use titfortats::SuspicousTitForTat;
pub use titfortats::TitForTat;
pub use titfortats::TitForTatN;
pub use titfortats::lemma_tit_for_tat;
pub use titfortats::suspicious_policy;
pub use titfortats::tit_for_tat_n_policy;
pub use titfortats::tit_for_tat_policy;
pub use titfortats::window_has_defect;

use vstd::prelude::*;

use crate::action::Action;
use crate::rng::Rand;

verus! {

/// The decision contract every participant implements.
///
/// `next_move` receives the opponent's visible actions and one's own past
/// actions, both ordered oldest to newest and of equal length at call time
/// (the number of elapsed rounds), together with the random source for
/// stochastic policies.  `name` is the stable display name used in reports.
pub trait Strategy {
    fn next_move(
        &self,
        other_actions: &Vec<Action>,
        own_actions: &Vec<Action>,
        rng: &mut Rand,
    ) -> Action;

    fn name(&self) -> String;
}

/// The closed roster of built-in strategies, as a tagged union that the
/// tournament engine can hold and schedule.  `TitForTatN` carries its
/// window width.
#[derive(Debug, Copy, Clone, PartialEq, Eq, Structural)]
pub enum StrategyKind {
    Naive,
    Exploiter,
    Random,
    Grudger,
    Reluctant,
    Detective,
    TitForTat,
    SuspicousTitForTat,
    FlipFlop,
    GenerousTitForTat,
    CheeckyTitForTat,
    TitForTatN(usize),
}

impl StrategyKind {
    /// Whether the strategy never consults the random source, so that its
    /// every move is the pure function `decide_spec` of the histories.
    pub open spec fn is_deterministic(self) -> bool {
        match self {
            StrategyKind::Random => false,
            StrategyKind::FlipFlop => false,
            StrategyKind::GenerousTitForTat => false,
            StrategyKind::CheeckyTitForTat => false,
            _ => true,
        }
    }

    /// The move a deterministic strategy plays on the given histories.  For
    /// the stochastic strategies the value is left unconstrained and nothing
    /// is promised about it.
    pub open spec fn decide_spec(self, other: Seq<Action>, own: Seq<Action>) -> Action {
        match self {
            StrategyKind::Naive => Action::Cooperate,
            StrategyKind::Exploiter => Action::Defect,
            StrategyKind::Grudger => grudger_policy(other),
            StrategyKind::Reluctant => reluctant_policy(other),
            StrategyKind::Detective => detective_policy(other),
            StrategyKind::TitForTat => tit_for_tat_policy(other),
            StrategyKind::SuspicousTitForTat => suspicious_policy(other),
            StrategyKind::TitForTatN(k) => tit_for_tat_n_policy(k as nat, other),
            _ => arbitrary(),
        }
    }

    /// The display name of the strategy.
    pub open spec fn name_spec(self) -> Seq<char> {
        match self {
            StrategyKind::Naive => "Naive"@,
            StrategyKind::Exploiter => "Exploiter"@,
            StrategyKind::Random => "Random"@,
            StrategyKind::Grudger => "Grudger"@,
            StrategyKind::Reluctant => "Reluctant"@,
            StrategyKind::Detective => "Detective"@,
            StrategyKind::TitForTat => "TitForTat"@,
            StrategyKind::SuspicousTitForTat => "SuspicousTFT"@,
            StrategyKind::FlipFlop => "FlipFlop"@,
            StrategyKind::GenerousTitForTat => "GenerousTFT"@,
            StrategyKind::CheeckyTitForTat => "CheeckyTFT"@,
            StrategyKind::TitForTatN(k) => "TitForTat"@ + crate::decimal::decimal_digits(k as nat),
        }
    }
}

impl Strategy for StrategyKind {
    fn next_move(
        &self,
        other_actions: &Vec<Action>,
        own_actions: &Vec<Action>,
        rng: &mut Rand,
    ) -> (r: Action)
        ensures
            self.is_deterministic() ==> r == self.decide_spec(other_actions@, own_actions@),
            self is FlipFlop && own_actions@.len() > 0 ==> r == own_actions@.last().flip_spec(),
            self is GenerousTitForTat && (other_actions@.len() == 0 || other_actions@.last()
                == Action::Cooperate) ==> r == Action::Cooperate,
            self is CheeckyTitForTat && other_actions@.len() == 0 ==> r == Action::Cooperate,
            self is CheeckyTitForTat && other_actions@.len() > 0 && other_actions@.last()
                == Action::Defect ==> r == Action::Defect,
    {
        match self {
            StrategyKind::Naive => Naive.next_move(other_actions, own_actions, rng),
            StrategyKind::Exploiter => Exploiter.next_move(other_actions, own_actions, rng),
            StrategyKind::Random => Random.next_move(other_actions, own_actions, rng),
            StrategyKind::Grudger => Grudger.next_move(other_actions, own_actions, rng),
            StrategyKind::Reluctant => Reluctant.next_move(other_actions, own_actions, rng),
            StrategyKind::Detective => Detective.next_move(other_actions, own_actions, rng),
            StrategyKind::TitForTat => TitForTat.next_move(other_actions, own_actions, rng),
            StrategyKind::SuspicousTitForTat => SuspicousTitForTat.next_move(
                other_actions,
                own_actions,
                rng,
            ),
            StrategyKind::FlipFlop => FlipFlop.next_move(other_actions, own_actions, rng),
            StrategyKind::GenerousTitForTat => GenerousTitForTat.next_move(
                other_actions,
                own_actions,
                rng,
            ),
            StrategyKind::CheeckyTitForTat => CheeckyTitForTat.next_move(
                other_actions,
                own_actions,
                rng,
            ),
            StrategyKind::TitForTatN(k) => TitForTatN(*k).next_move(other_actions, own_actions, rng),
        }
    }

    fn name(&self) -> (r: String)
        ensures
            r@ == self.name_spec(),
    {
        match self {
            StrategyKind::Naive => Naive.name(),
            StrategyKind::Exploiter => Exploiter.name(),
            StrategyKind::Random => Random.name(),
            StrategyKind::Grudger => Grudger.name(),
            StrategyKind::Reluctant => Reluctant.name(),
            StrategyKind::Detective => Detective.name(),
            StrategyKind::TitForTat => TitForTat.name(),
            StrategyKind::SuspicousTitForTat => SuspicousTitForTat.name(),
            StrategyKind::FlipFlop => FlipFlop.name(),
            StrategyKind::GenerousTitForTat => GenerousTitForTat.name(),
            StrategyKind::CheeckyTitForTat => CheeckyTitForTat.name(),
            StrategyKind::TitForTatN(k) => TitForTatN(*k).name(),
        }
    }
}

} // verus!
