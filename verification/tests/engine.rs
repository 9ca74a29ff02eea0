use prisoners::Action;
use prisoners::ConfigError;
use prisoners::Rand;
use prisoners::Runner;
use prisoners::StrategyKind;
use prisoners::action::NOISE_DENOM;
use prisoners::action::payoff;

#[test]
fn test_payoff_table() {
    assert_eq!(payoff(Action::Cooperate, Action::Cooperate), (3, 3));
    assert_eq!(payoff(Action::Cooperate, Action::Defect), (0, 5));
    assert_eq!(payoff(Action::Defect, Action::Cooperate), (5, 0));
    assert_eq!(payoff(Action::Defect, Action::Defect), (1, 1));
}

#[test]
fn test_noise_zero_never_flips() {
    let mut rng = Rand::from_seed(9);
    for _ in 0..10_000 {
        assert_eq!(Action::Cooperate.noise(0, &mut rng), Action::Cooperate);
        assert_eq!(Action::Defect.noise(0, &mut rng), Action::Defect);
    }
}

#[test]
fn test_noise_one_always_flips() {
    let mut rng = Rand::from_seed(10);
    for _ in 0..10_000 {
        assert_eq!(
            Action::Cooperate.noise(NOISE_DENOM, &mut rng),
            Action::Defect
        );
        assert_eq!(Action::Defect.noise(NOISE_DENOM, &mut rng), Action::Cooperate);
    }
}

#[test]
fn test_noise_out_of_range_rejected() {
    let r = Runner::new(vec![StrategyKind::Naive], NOISE_DENOM + 1);
    assert_eq!(r.err(), Some(ConfigError::NoiseOutOfRange));
}

#[test]
fn test_default_config() {
    let r = Runner::new(vec![StrategyKind::Naive, StrategyKind::Grudger], 0).unwrap();
    assert_eq!(r.run_length, 200);
    assert_eq!(r.iterations, 5);
    assert_eq!(r.noise, 0);
    assert_eq!(r.players.len(), 2);
    assert!(r.runs.is_empty());
}

#[test]
fn test_naive_vs_exploiter_scenario() {
    let mut runner = Runner::with_config(
        vec![StrategyKind::Naive, StrategyKind::Exploiter],
        0,
        3,
        1,
    )
    .unwrap();
    let mut rng = Rand::from_seed(0);
    runner.run(&mut rng);
    assert_eq!(runner.runs.len(), 1);
    assert_eq!(runner.runs[0].left_name, "Naive");
    assert_eq!(runner.runs[0].right_name, "Exploiter");
    assert_eq!(runner.runs[0].left_score, 0);
    assert_eq!(runner.runs[0].right_score, 15);
    let ranking = runner.ranking();
    assert_eq!(ranking.len(), 2);
    assert_eq!(ranking[0].0, "Exploiter");
    assert_eq!(ranking[0].1, 15);
    assert_eq!(ranking[1].0, "Naive");
    assert_eq!(ranking[1].1, 0);
}

#[test]
fn test_tit_for_tat_pair_scenario() {
    let mut runner = Runner::with_config(
        vec![StrategyKind::TitForTat, StrategyKind::TitForTat],
        0,
        5,
        1,
    )
    .unwrap();
    let mut rng = Rand::from_seed(0);
    runner.run(&mut rng);
    assert_eq!(runner.runs.len(), 1);
    assert_eq!(runner.runs[0].left_score, 15);
    assert_eq!(runner.runs[0].right_score, 15);
}

#[test]
fn test_tournament_determinism_fixed_seed() {
    let roster = vec![
        StrategyKind::Naive,
        StrategyKind::Exploiter,
        StrategyKind::Random,
        StrategyKind::Grudger,
        StrategyKind::Detective,
        StrategyKind::FlipFlop,
        StrategyKind::TitForTat,
        StrategyKind::TitForTatN(2),
    ];
    let mut first = Runner::with_config(roster.clone(), 250_000, 30, 2).unwrap();
    let mut second = Runner::with_config(roster, 250_000, 30, 2).unwrap();
    let mut rng1 = Rand::from_seed(42);
    let mut rng2 = Rand::from_seed(42);
    first.run(&mut rng1);
    second.run(&mut rng2);
    assert_eq!(first.scores(), second.scores());
    assert_eq!(first.runs.len(), second.runs.len());
    for (a, b) in first.runs.iter().zip(second.runs.iter()) {
        assert_eq!(a.left_name, b.left_name);
        assert_eq!(a.right_name, b.right_name);
        assert_eq!(a.left_score, b.left_score);
        assert_eq!(a.right_score, b.right_score);
    }
}

#[test]
fn test_noiseless_determinism_any_seed() {
    let roster = vec![
        StrategyKind::Grudger,
        StrategyKind::Detective,
        StrategyKind::SuspicousTitForTat,
        StrategyKind::TitForTatN(3),
    ];
    let mut first = Runner::with_config(roster.clone(), 0, 20, 2).unwrap();
    let mut second = Runner::with_config(roster, 0, 20, 2).unwrap();
    let mut rng1 = Rand::from_seed(1);
    let mut rng2 = Rand::from_seed(99);
    first.run(&mut rng1);
    second.run(&mut rng2);
    assert_eq!(first.scores(), second.scores());
}

#[test]
fn test_run_twice_accumulates() {
    let mut runner = Runner::with_config(
        vec![StrategyKind::Naive, StrategyKind::Exploiter],
        0,
        3,
        1,
    )
    .unwrap();
    let mut rng = Rand::from_seed(0);
    runner.run(&mut rng);
    runner.run(&mut rng);
    assert_eq!(runner.runs.len(), 2);
    let scores = runner.scores();
    assert_eq!(scores[0], ("Naive".to_string(), 0));
    assert_eq!(scores[1], ("Exploiter".to_string(), 30));
}

#[test]
fn test_zero_round_match() {
    let mut runner = Runner::with_config(
        vec![StrategyKind::Grudger, StrategyKind::Exploiter],
        0,
        0,
        1,
    )
    .unwrap();
    let mut rng = Rand::from_seed(0);
    runner.run(&mut rng);
    assert_eq!(runner.runs.len(), 1);
    assert_eq!(runner.runs[0].left_score, 0);
    assert_eq!(runner.runs[0].right_score, 0);
}

#[test]
fn test_single_participant_plays_no_match() {
    let mut runner = Runner::new(vec![StrategyKind::Naive], 0).unwrap();
    let mut rng = Rand::from_seed(0);
    runner.run(&mut rng);
    assert!(runner.runs.is_empty());
    assert_eq!(runner.scores(), vec![("Naive".to_string(), 0)]);
}

#[test]
fn test_empty_roster() {
    let mut runner = Runner::new(vec![], 0).unwrap();
    let mut rng = Rand::from_seed(0);
    runner.run(&mut rng);
    assert!(runner.runs.is_empty());
    assert!(runner.ranking().is_empty());
}

#[test]
fn test_ranking_keeps_roster_order_on_ties() {
    // Two strategies that always cooperate with each other tie exactly;
    // the ranking must keep their roster order.
    let mut runner = Runner::with_config(
        vec![StrategyKind::TitForTat, StrategyKind::Naive],
        0,
        4,
        1,
    )
    .unwrap();
    let mut rng = Rand::from_seed(0);
    runner.run(&mut rng);
    let ranking = runner.ranking();
    assert_eq!(ranking[0], ("TitForTat".to_string(), 12));
    assert_eq!(ranking[1], ("Naive".to_string(), 12));
}

#[test]
fn test_full_roster_tournament_consistency() {
    // Every strategy in one short noisy tournament: the log length matches
    // the schedule and the ranked scores are a permutation of the totals.
    let roster = vec![
        StrategyKind::Naive,
        StrategyKind::Exploiter,
        StrategyKind::Random,
        StrategyKind::Grudger,
        StrategyKind::Reluctant,
        StrategyKind::Detective,
        StrategyKind::TitForTat,
        StrategyKind::SuspicousTitForTat,
        StrategyKind::FlipFlop,
        StrategyKind::GenerousTitForTat,
        StrategyKind::CheeckyTitForTat,
        StrategyKind::TitForTatN(2),
        StrategyKind::TitForTatN(3),
    ];
    let n = roster.len();
    let mut runner = Runner::with_config(roster, 100_000, 10, 3).unwrap();
    let mut rng = Rand::from_seed(7);
    runner.run(&mut rng);
    assert_eq!(runner.runs.len(), 3 * n * (n - 1) / 2);
    let mut ranked = runner.ranking();
    assert_eq!(ranked.len(), n);
    for pair in ranked.windows(2) {
        assert!(pair[0].1 >= pair[1].1);
    }
    let mut totals: Vec<u64> = runner.scores().into_iter().map(|p| p.1).collect();
    let mut ranked_scores: Vec<u64> = ranked.drain(..).map(|p| p.1).collect();
    totals.sort();
    ranked_scores.sort();
    assert_eq!(totals, ranked_scores);
}
