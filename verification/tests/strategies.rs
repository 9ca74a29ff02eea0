use prisoners::Action;
use prisoners::CheeckyTitForTat;
use prisoners::Detective;
use prisoners::Exploiter;
use prisoners::FlipFlop;
use prisoners::GenerousTitForTat;
use prisoners::Grudger;
use prisoners::Naive;
use prisoners::Rand;
use prisoners::Random;
use prisoners::Reluctant;
use prisoners::Strategy;
use prisoners::SuspicousTitForTat;
use prisoners::TitForTat;
use prisoners::TitForTatN;

#[test]
fn test_detective_against_tit_for_tat() {
    let mut rng = Rand::from_seed(0);
    let input = vec![
        Action::Cooperate,
        Action::Cooperate,
        Action::Defect,
        Action::Cooperate,
    ];
    assert_eq!(
        Detective.next_move(&input, &vec![], &mut rng),
        Action::Cooperate
    );
}

#[test]
fn test_detective_against_exploiter() {
    let mut rng = Rand::from_seed(0);
    let input = vec![
        Action::Defect,
        Action::Defect,
        Action::Defect,
        Action::Defect,
    ];
    assert_eq!(
        Detective.next_move(&input, &vec![], &mut rng),
        Action::Defect
    );
}

#[test]
fn test_detective_against_naive() {
    let mut rng = Rand::from_seed(0);
    let input = vec![
        Action::Cooperate,
        Action::Cooperate,
        Action::Cooperate,
        Action::Cooperate,
    ];
    assert_eq!(
        Detective.next_move(&input, &vec![], &mut rng),
        Action::Defect
    );
}

#[test]
fn test_tit_for_tat() {
    let mut rng = Rand::from_seed(0);
    assert_eq!(
        TitForTat.next_move(&vec![], &vec![], &mut rng),
        Action::Cooperate
    );
    let input = vec![Action::Defect, Action::Cooperate];
    assert_eq!(
        TitForTat.next_move(&input, &vec![], &mut rng),
        Action::Cooperate
    );
    let input2 = vec![Action::Defect, Action::Defect];
    assert_eq!(
        TitForTat.next_move(&input2, &vec![], &mut rng),
        Action::Defect
    );
}

#[test]
fn test_tit_for_tat_n() {
    let mut rng = Rand::from_seed(0);
    let ttn = TitForTatN(2);
    assert_eq!(ttn.next_move(&vec![], &vec![], &mut rng), Action::Cooperate);
    let mut input = vec![Action::Defect];
    assert_eq!(
        ttn.next_move(&input, &vec![], &mut rng),
        Action::Cooperate
    );
    input = vec![Action::Defect, Action::Defect];
    assert_eq!(ttn.next_move(&input, &vec![], &mut rng), Action::Defect);
    input = vec![Action::Defect, Action::Cooperate, Action::Defect];
    assert_eq!(
        ttn.next_move(&input, &vec![], &mut rng),
        Action::Cooperate
    );
}

#[test]
fn test_naive_and_exploiter_ignore_history() {
    let mut rng = Rand::from_seed(1);
    let history = vec![Action::Defect, Action::Cooperate, Action::Defect];
    assert_eq!(
        Naive.next_move(&history, &history, &mut rng),
        Action::Cooperate
    );
    assert_eq!(Naive.next_move(&vec![], &vec![], &mut rng), Action::Cooperate);
    assert_eq!(
        Exploiter.next_move(&history, &history, &mut rng),
        Action::Defect
    );
    assert_eq!(
        Exploiter.next_move(&vec![], &vec![], &mut rng),
        Action::Defect
    );
}

#[test]
fn test_grudger_holds_grudge() {
    let mut rng = Rand::from_seed(2);
    assert_eq!(
        Grudger.next_move(&vec![], &vec![], &mut rng),
        Action::Cooperate
    );
    let clean = vec![Action::Cooperate, Action::Cooperate];
    assert_eq!(Grudger.next_move(&clean, &vec![], &mut rng), Action::Cooperate);
    let betrayed = vec![
        Action::Cooperate,
        Action::Defect,
        Action::Cooperate,
        Action::Cooperate,
    ];
    assert_eq!(
        Grudger.next_move(&betrayed, &vec![], &mut rng),
        Action::Defect
    );
}

#[test]
fn test_reluctant_warms_up() {
    let mut rng = Rand::from_seed(3);
    assert_eq!(
        Reluctant.next_move(&vec![], &vec![], &mut rng),
        Action::Defect
    );
    let hostile = vec![Action::Defect, Action::Defect];
    assert_eq!(
        Reluctant.next_move(&hostile, &vec![], &mut rng),
        Action::Defect
    );
    let softened = vec![Action::Defect, Action::Cooperate, Action::Defect];
    assert_eq!(
        Reluctant.next_move(&softened, &vec![], &mut rng),
        Action::Cooperate
    );
}

#[test]
fn test_suspicious_tit_for_tat() {
    let mut rng = Rand::from_seed(4);
    assert_eq!(
        SuspicousTitForTat.next_move(&vec![], &vec![], &mut rng),
        Action::Defect
    );
    let input = vec![Action::Cooperate];
    assert_eq!(
        SuspicousTitForTat.next_move(&input, &vec![], &mut rng),
        Action::Cooperate
    );
}

#[test]
fn test_flip_flop_alternates() {
    let mut rng = Rand::from_seed(5);
    let own_c = vec![Action::Cooperate];
    assert_eq!(
        FlipFlop.next_move(&vec![], &own_c, &mut rng),
        Action::Defect
    );
    let own_d = vec![Action::Cooperate, Action::Defect];
    assert_eq!(
        FlipFlop.next_move(&vec![], &own_d, &mut rng),
        Action::Cooperate
    );
}

#[test]
fn test_random_returns_a_move() {
    let mut rng = Rand::from_seed(6);
    let r = Random.next_move(&vec![], &vec![], &mut rng);
    assert!(r == Action::Cooperate || r == Action::Defect);
}

#[test]
fn test_generous_tit_for_tat_mirrors_cooperation() {
    let mut rng = Rand::from_seed(7);
    assert_eq!(
        GenerousTitForTat.next_move(&vec![], &vec![], &mut rng),
        Action::Cooperate
    );
    let input = vec![Action::Defect, Action::Cooperate];
    assert_eq!(
        GenerousTitForTat.next_move(&input, &vec![], &mut rng),
        Action::Cooperate
    );
}

#[test]
fn test_cheecky_tit_for_tat_mirrors_defection() {
    let mut rng = Rand::from_seed(8);
    assert_eq!(
        CheeckyTitForTat.next_move(&vec![], &vec![], &mut rng),
        Action::Cooperate
    );
    let input = vec![Action::Cooperate, Action::Defect];
    assert_eq!(
        CheeckyTitForTat.next_move(&input, &vec![], &mut rng),
        Action::Defect
    );
}

#[test]
fn test_strategy_names() {
    assert_eq!(Naive.name(), "Naive");
    assert_eq!(Exploiter.name(), "Exploiter");
    assert_eq!(Random.name(), "Random");
    assert_eq!(Grudger.name(), "Grudger");
    assert_eq!(Reluctant.name(), "Reluctant");
    assert_eq!(Detective.name(), "Detective");
    assert_eq!(TitForTat.name(), "TitForTat");
    assert_eq!(SuspicousTitForTat.name(), "SuspicousTFT");
    assert_eq!(FlipFlop.name(), "FlipFlop");
    assert_eq!(GenerousTitForTat.name(), "GenerousTFT");
    assert_eq!(CheeckyTitForTat.name(), "CheeckyTFT");
    assert_eq!(TitForTatN(2).name(), "TitForTat2");
    assert_eq!(TitForTatN(0).name(), "TitForTat0");
    assert_eq!(TitForTatN(35).name(), "TitForTat35");
}

#[test]
fn test_action_flip() {
    assert_eq!(Action::Cooperate.flip(), Action::Defect);
    assert_eq!(Action::Defect.flip(), Action::Cooperate);
}
