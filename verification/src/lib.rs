//! An iterated prisoner's dilemma tournament engine.
//!
//! A fixed roster of decision strategies plays a round-robin schedule of
//! repeated matches.  Each round both sides pick an action from the
//! two-valued alphabet (`Cooperate` / `Defect`), scores are credited from
//! the classic payoff table, and the actions -- possibly corrupted by
//! communication noise -- are appended to the histories the strategies see
//! in later rounds.

pub mod action;
pub mod decimal;
pub mod engine;
pub mod rng;
pub mod strategies;

pub use action::Action;
pub use engine::ConfigError;
pub use engine::MatchResult;
pub use engine::Runner;
pub use rng::Rand;
pub use strategies::StrategyKind;
pub use strategies::CheeckyTitForTat;
pub use strategies::Detective;
pub use strategies::Exploiter;
pub use strategies::FlipFlop;
pub use strategies::GenerousTitForTat;
pub use strategies::Grudger;
pub use strategies::Naive;
pub use strategies::Random;
pub use strategies::Reluctant;
pub use strategies::Strategy;
pub use strategies::SuspicousTitForTat;
pub use strategies::TitForTat;
pub use strategies::TitForTatN;
