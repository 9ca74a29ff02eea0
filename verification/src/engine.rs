//! The tournament engine: the per-match repeated-game loop, the round-robin
//! scheduler, and the ranked result.

use vstd::prelude::*;

use crate::action::Action;
use crate::action::NOISE_DENOM;
use crate::action::payoff;
use crate::action::payoff_spec;
use crate::action::lemma_payoff_bounds;
use crate::action::lemma_payoff_joint;
use crate::action::lemma_payoff_symmetric;
use crate::rng::Rand;
use crate::strategies::Strategy;
use crate::strategies::StrategyKind;

verus! {

/// The record of one completed match: who played and what each side scored.
#[derive(Debug)]
pub struct MatchResult {
    pub left_name: String,
    pub right_name: String,
    pub left_score: u64,
    pub right_score: u64,
}

/// The ghost mirror of a match record, over views.
#[verifier::ext_equal]
pub struct MatchRecord {
    pub left_name: Seq<char>,
    pub right_name: Seq<char>,
    pub left_score: int,
    pub right_score: int,
}

impl View for MatchResult {
    type V = MatchRecord;

    open spec fn view(&self) -> MatchRecord {
        MatchRecord {
            left_name: self.left_name@,
            right_name: self.right_name@,
            left_score: self.left_score as int,
            right_score: self.right_score as int,
        }
    }
}

/// The state of a noiseless match between two deterministic strategies
/// after a number of rounds: the two visible histories and the two running
/// scores.  Round by round each side's move is its policy applied to the
/// histories so far, both sides are scored from the payoff table, and the
/// moves are appended to the histories.
#[verifier::ext_equal]
pub struct MatchState {
    pub left_hist: Seq<Action>,
    pub right_hist: Seq<Action>,
    pub left_score: int,
    pub right_score: int,
}

/// The match state reached after `rounds` rounds of a noiseless match
/// between the deterministic strategies `a` (left) and `b` (right).
pub open spec fn match_state(a: StrategyKind, b: StrategyKind, rounds: nat) -> MatchState
    decreases rounds,
{
    if rounds == 0 {
        MatchState {
            left_hist: Seq::empty(),
            right_hist: Seq::empty(),
            left_score: 0,
            right_score: 0,
        }
    } else {
        let prev = match_state(a, b, (rounds - 1) as nat);
        let la = a.decide_spec(prev.right_hist, prev.left_hist);
        let ra = b.decide_spec(prev.left_hist, prev.right_hist);
        MatchState {
            left_hist: prev.left_hist.push(la),
            right_hist: prev.right_hist.push(ra),
            left_score: prev.left_score + payoff_spec(la, ra).0,
            right_score: prev.right_score + payoff_spec(la, ra).1,
        }
    }
}

/// The payoff symmetry lifted to whole matches: swapping the two sides of
/// a noiseless deterministic match swaps the histories and swaps the
/// scores, round for round.
pub proof fn lemma_match_state_swap(a: StrategyKind, b: StrategyKind, rounds: nat)
    ensures
        match_state(b, a, rounds).left_hist == match_state(a, b, rounds).right_hist,
        match_state(b, a, rounds).right_hist == match_state(a, b, rounds).left_hist,
        match_state(b, a, rounds).left_score == match_state(a, b, rounds).right_score,
        match_state(b, a, rounds).right_score == match_state(a, b, rounds).left_score,
    decreases rounds,
{
    if rounds > 0 {
        lemma_match_state_swap(a, b, (rounds - 1) as nat);
        let prev = match_state(a, b, (rounds - 1) as nat);
        let la = a.decide_spec(prev.right_hist, prev.left_hist);
        let ra = b.decide_spec(prev.left_hist, prev.right_hist);
        lemma_payoff_symmetric(la, ra);
    }
}

/// The configuration error: the only rejected configuration is a noise
/// level outside the unit interval.
#[derive(Debug, Copy, Clone, PartialEq, Eq, Structural)]
pub enum ConfigError {
    NoiseOutOfRange,
}

/// One tournament: the roster of participants with their cumulative scores,
/// the ordered log of completed matches, and the run configuration.
pub struct Runner {
    /// The participants, each a strategy paired with its cumulative score.
    pub players: Vec<(StrategyKind, u64)>,
    /// The log of completed matches, in scheduling order.
    pub runs: Vec<MatchResult>,
    /// Rounds per match.
    pub run_length: usize,
    /// Repetitions of the full pairing schedule.
    pub iterations: usize,
    /// Noise level, over the `NOISE_DENOM` scale.
    pub noise: u64,
}

impl Runner {
    /// A valid configuration: the noise level lies on the probability scale.
    pub open spec fn wf(self) -> bool {
        self.noise <= NOISE_DENOM
    }

    /// Whether every participant is deterministic, so that the whole run is
    /// a pure function of the starting state and the configuration.
    pub open spec fn all_deterministic(self) -> bool {
        forall|k: int|
            0 <= k < self.players@.len() ==> (#[trigger] self.players@[k]).0.is_deterministic()
    }

    /// Builds a tournament over the given roster with explicit
    /// configuration.  Every cumulative score starts at zero and the match
    /// log starts empty.  A noise level beyond `NOISE_DENOM` (a probability
    /// above one) is rejected.
    pub fn with_config(
        players: Vec<StrategyKind>,
        noise: u64,
        run_length: usize,
        iterations: usize,
    ) -> (r: Result<Runner, ConfigError>)
        ensures
            r is Ok <==> noise <= NOISE_DENOM,
            r is Err ==> r->Err_0 == ConfigError::NoiseOutOfRange,
            r is Ok ==> {
                &&& r->Ok_0.wf()
                &&& r->Ok_0.run_length == run_length
                &&& r->Ok_0.iterations == iterations
                &&& r->Ok_0.noise == noise
                &&& r->Ok_0.runs@.len() == 0
                &&& r->Ok_0.players@.len() == players@.len()
                &&& forall|k: int|
                    0 <= k < players@.len() ==> (#[trigger] r->Ok_0.players@[k]).0 == players@[k]
                        && r->Ok_0.players@[k].1 == 0
            },
    {
        if noise > NOISE_DENOM {
            return Err(ConfigError::NoiseOutOfRange);
        }
        let n = players.len();
        let mut scored: Vec<(StrategyKind, u64)> = Vec::new();
        let mut i: usize = 0;
        while i < n
            invariant
                i <= n,
                n == players@.len(),
                scored@.len() == i,
                forall|k: int|
                    0 <= k < i ==> (#[trigger] scored@[k]).0 == players@[k] && scored@[k].1 == 0,
            decreases n - i,
        {
            scored.push((players[i], 0));
            i += 1;
        }
        Ok(
            Runner {
                players: scored,
                runs: Vec::new(),
                run_length,
                iterations,
                noise,
            },
        )
    }

    /// Builds a tournament with the default configuration: 200 rounds per
    /// match and 5 repetitions of the schedule.
    pub fn new(players: Vec<StrategyKind>, noise: u64) -> (r: Result<Runner, ConfigError>)
        ensures
            r is Ok <==> noise <= NOISE_DENOM,
            r is Err ==> r->Err_0 == ConfigError::NoiseOutOfRange,
            r is Ok ==> {
                &&& r->Ok_0.wf()
                &&& r->Ok_0.run_length == 200
                &&& r->Ok_0.iterations == 5
                &&& r->Ok_0.noise == noise
                &&& r->Ok_0.runs@.len() == 0
                &&& r->Ok_0.players@.len() == players@.len()
                &&& forall|k: int|
                    0 <= k < players@.len() ==> (#[trigger] r->Ok_0.players@[k]).0 == players@[k]
                        && r->Ok_0.players@[k].1 == 0
            },
    {
        Self::with_config(players, noise, 200, 5)
    }

    /// Plays one match of `run_length` rounds between the participants at
    /// `left` and `right`.  Every round both strategies decide from the
    /// visible histories, the true actions are scored, and the possibly
    /// noised actions are appended to the visible histories.  The match
    /// record is appended to the log and both cumulative scores grow by the
    /// match scores; with zero noise and two deterministic participants the
    /// match scores are exactly those of the noiseless match model.
    pub fn match_run(&mut self, left: usize, right: usize, rng: &mut Rand)
        requires
            old(self).wf(),
            left < old(self).players@.len(),
            right < old(self).players@.len(),
            left != right,
            old(self).players@[left as int].1 + 5 * old(self).run_length <= u64::MAX,
            old(self).players@[right as int].1 + 5 * old(self).run_length <= u64::MAX,
        ensures
            final(self).wf(),
            final(self).run_length == old(self).run_length,
            final(self).iterations == old(self).iterations,
            final(self).noise == old(self).noise,
            final(self).players@.len() == old(self).players@.len(),
            forall|k: int|
                0 <= k < old(self).players@.len() ==> (#[trigger] final(self).players@[k]).0
                    == old(self).players@[k].0,
            forall|k: int|
                0 <= k < old(self).players@.len() && k != left && k != right
                    ==> (#[trigger] final(self).players@[k]) == old(self).players@[k],
            final(self).runs@ == old(self).runs@.push(final(self).runs@.last()),
            final(self).runs@.last()@.left_name == old(self).players@[left as int].0.name_spec(),
            final(self).runs@.last()@.right_name == old(self).players@[right as int].0.name_spec(),
            0 <= final(self).runs@.last()@.left_score <= 5 * old(self).run_length,
            0 <= final(self).runs@.last()@.right_score <= 5 * old(self).run_length,
            2 * old(self).run_length <= final(self).runs@.last()@.left_score
                + final(self).runs@.last()@.right_score <= 6 * old(self).run_length,
            final(self).players@[left as int].1 == old(self).players@[left as int].1
                + final(self).runs@.last()@.left_score,
            final(self).players@[right as int].1 == old(self).players@[right as int].1
                + final(self).runs@.last()@.right_score,
            old(self).noise == 0 && old(self).players@[left as int].0.is_deterministic()
                && old(self).players@[right as int].0.is_deterministic() ==> {
                let ms = match_state(
                    old(self).players@[left as int].0,
                    old(self).players@[right as int].0,
                    old(self).run_length as nat,
                );
                &&& final(self).runs@.last()@.left_score == ms.left_score
                &&& final(self).runs@.last()@.right_score == ms.right_score
            },
    {
        let run_length = self.run_length;
        let noise = self.noise;
        let sa = self.players[left].0;
        let sb = self.players[right].0;
        let mut left_actions: Vec<Action> = Vec::new();
        let mut right_actions: Vec<Action> = Vec::new();
        let mut left_score: u64 = 0;
        let mut right_score: u64 = 0;
        let mut round: usize = 0;
        while round < run_length
            invariant
                round <= run_length,
                5 * run_length <= u64::MAX,
                noise <= NOISE_DENOM,
                left_actions@.len() == round,
                right_actions@.len() == round,
                left_score <= 5 * round,
                right_score <= 5 * round,
                2 * round <= left_score + right_score <= 6 * round,
                noise == 0 && sa.is_deterministic() && sb.is_deterministic() ==> {
                    let st = match_state(sa, sb, round as nat);
                    &&& left_actions@ == st.left_hist
                    &&& right_actions@ == st.right_hist
                    &&& left_score == st.left_score
                    &&& right_score == st.right_score
                },
            decreases run_length - round,
        {
            let left_action = sa.next_move(&right_actions, &left_actions, rng);
            let right_action = sb.next_move(&left_actions, &right_actions, rng);
            proof {
                lemma_payoff_bounds(left_action, right_action);
                lemma_payoff_joint(left_action, right_action);
            }
            let (pl, pr) = payoff(left_action, right_action);
            left_score = left_score + pl;
            right_score = right_score + pr;
            let right_obs = right_action.noise(noise, rng);
            let left_obs = left_action.noise(noise, rng);
            right_actions.push(right_obs);
            left_actions.push(left_obs);
            round += 1;
            proof {
                if noise == 0 && sa.is_deterministic() && sb.is_deterministic() {
                    let st = match_state(sa, sb, round as nat);
                    assert(match_state(sa, sb, (round - 1) as nat) == match_state(
                        sa,
                        sb,
                        ((round as nat) - 1) as nat,
                    ));
                    assert(left_actions@ == st.left_hist);
                }
            }
        }
        let result = MatchResult {
            left_name: sa.name(),
            right_name: sb.name(),
            left_score,
            right_score,
        };
        self.runs.push(result);
        let new_left = (sa, self.players[left].1 + left_score);
        self.players[left] = new_left;
        let new_right = (sb, self.players[right].1 + right_score);
        self.players[right] = new_right;
    }
}

/// The ghost state a tournament run evolves: the cumulative scores, by
/// roster position, and the match log.
#[verifier::ext_equal]
pub struct TourneyState {
    pub scores: Seq<int>,
    pub log: Seq<MatchRecord>,
}

/// The ghost state of a tournament.
pub open spec fn state_of(r: Runner) -> TourneyState {
    TourneyState {
        scores: Seq::new(r.players@.len(), |k: int| r.players@[k].1 as int),
        log: Seq::new(r.runs@.len(), |k: int| r.runs@[k]@),
    }
}

/// The roster of a tournament, in order.
pub open spec fn roster_of(r: Runner) -> Seq<StrategyKind> {
    Seq::new(r.players@.len(), |k: int| r.players@[k].0)
}

/// Playing one scheduled pairing `(i, j)` of a noiseless, deterministic
/// tournament: both cumulative scores grow by the match scores and the
/// match record is appended to the log.
pub open spec fn apply_match(
    roster: Seq<StrategyKind>,
    rounds: nat,
    st: TourneyState,
    i: int,
    j: int,
) -> TourneyState {
    let ms = match_state(roster[i], roster[j], rounds);
    TourneyState {
        scores: st.scores.update(i, st.scores[i] + ms.left_score).update(
            j,
            st.scores[j] + ms.right_score,
        ),
        log: st.log.push(
            MatchRecord {
                left_name: roster[i].name_spec(),
                right_name: roster[j].name_spec(),
                left_score: ms.left_score,
                right_score: ms.right_score,
            },
        ),
    }
}

/// Playing a sequence of scheduled pairings, in order.
pub open spec fn apply_pairs(
    roster: Seq<StrategyKind>,
    rounds: nat,
    st: TourneyState,
    pairs: Seq<(int, int)>,
) -> TourneyState
    decreases pairs.len(),
{
    if pairs.len() == 0 {
        st
    } else {
        apply_match(
            roster,
            rounds,
            apply_pairs(roster, rounds, st, pairs.drop_last()),
            pairs.last().0,
            pairs.last().1,
        )
    }
}

/// The pairings `(i, j)` for `j` in `i+1 .. hi`, in order.
pub open spec fn row_pairs(i: int, hi: int) -> Seq<(int, int)> {
    Seq::new(
        if hi > i + 1 {
            (hi - i - 1) as nat
        } else {
            0
        },
        |t: int| (i, i + 1 + t),
    )
}

/// The pairings of the rows before `i` of one repetition over `n`
/// participants: row `r` pairs participant `r` with every later one.
pub open spec fn rows_upto(n: int, i: int) -> Seq<(int, int)>
    decreases i,
{
    if i <= 0 {
        Seq::empty()
    } else {
        rows_upto(n, i - 1) + row_pairs(i - 1, n)
    }
}

/// One repetition of the schedule: every unordered pair `(i, j)` with
/// `i < j` over `n` participants, played once, in row order.
pub open spec fn round_robin(n: int) -> Seq<(int, int)> {
    rows_upto(n, n)
}

/// The full schedule: `its` repetitions of the round robin.
pub open spec fn schedule(n: int, its: int) -> Seq<(int, int)>
    decreases its,
{
    if its <= 0 {
        Seq::empty()
    } else {
        schedule(n, its - 1) + round_robin(n)
    }
}

proof fn lemma_rows_upto_valid(n: int, r: int)
    requires
        0 <= r <= n,
    ensures
        forall|t: int|
            0 <= t < rows_upto(n, r).len() ==> 0 <= (#[trigger] rows_upto(n, r)[t]).0
                && rows_upto(n, r)[t].0 < rows_upto(n, r)[t].1 < n && rows_upto(n, r)[t].0 < r,
    decreases r,
{
    if r > 0 {
        lemma_rows_upto_valid(n, r - 1);
        let prefix = rows_upto(n, r - 1);
        let row = row_pairs(r - 1, n);
        assert forall|t: int| 0 <= t < rows_upto(n, r).len() implies 0 <= (#[trigger] rows_upto(
            n,
            r,
        )[t]).0 && rows_upto(n, r)[t].0 < rows_upto(n, r)[t].1 < n && rows_upto(n, r)[t].0
            < r by {
            if t < prefix.len() {
                assert(rows_upto(n, r)[t] == prefix[t]);
            } else {
                assert(rows_upto(n, r)[t] == row[t - prefix.len()]);
            }
        }
    }
}

/// No self-play and no reversed re-pairing: every scheduled pairing of one
/// repetition is an unordered pair of distinct roster positions, left
/// strictly below right.
pub proof fn lemma_round_robin_pairs_valid(n: int)
    requires
        0 <= n,
    ensures
        forall|t: int|
            0 <= t < round_robin(n).len() ==> 0 <= (#[trigger] round_robin(n)[t]).0 && round_robin(
                n,
            )[t].0 < round_robin(n)[t].1 < n,
{
    lemma_rows_upto_valid(n, n);
}

proof fn lemma_rows_upto_contains(n: int, r: int, i: int, j: int)
    requires
        0 <= i < r <= n,
        i < j < n,
    ensures
        exists|t: int| 0 <= t < rows_upto(n, r).len() && rows_upto(n, r)[t] == (i, j),
    decreases r,
{
    let prefix = rows_upto(n, r - 1);
    let row = row_pairs(r - 1, n);
    if i == r - 1 {
        assert(row[j - i - 1] == (i, j));
        assert(rows_upto(n, r)[prefix.len() + (j - i - 1)] == (i, j));
    } else {
        lemma_rows_upto_contains(n, r - 1, i, j);
        let t = choose|t: int| 0 <= t < prefix.len() && prefix[t] == (i, j);
        assert(rows_upto(n, r)[t] == (i, j));
    }
}

/// Every unordered pair of roster positions is played in each repetition.
pub proof fn lemma_round_robin_complete(n: int, i: int, j: int)
    requires
        0 <= i < j < n,
    ensures
        exists|t: int| 0 <= t < round_robin(n).len() && round_robin(n)[t] == (i, j),
{
    lemma_rows_upto_contains(n, n, i, j);
    let t = choose|t: int| 0 <= t < rows_upto(n, n).len() && rows_upto(n, n)[t] == (i, j);
    assert(round_robin(n)[t] == (i, j));
}

proof fn lemma_rows_upto_distinct(n: int, r: int)
    requires
        0 <= r <= n,
    ensures
        forall|t1: int, t2: int|
            0 <= t1 < t2 < rows_upto(n, r).len() ==> #[trigger] rows_upto(n, r)[t1]
                != #[trigger] rows_upto(n, r)[t2],
    decreases r,
{
    if r > 0 {
        lemma_rows_upto_distinct(n, r - 1);
        lemma_rows_upto_valid(n, r - 1);
        let prefix = rows_upto(n, r - 1);
        let row = row_pairs(r - 1, n);
        assert forall|t1: int, t2: int|
            0 <= t1 < t2 < rows_upto(n, r).len() implies #[trigger] rows_upto(n, r)[t1]
            != #[trigger] rows_upto(n, r)[t2] by {
            if t1 < prefix.len() && t2 < prefix.len() {
            } else if t1 < prefix.len() {
                assert(prefix[t1].0 < r - 1);
                assert(rows_upto(n, r)[t2] == row[t2 - prefix.len()]);
            } else {
                assert(rows_upto(n, r)[t1] == row[t1 - prefix.len()]);
                assert(rows_upto(n, r)[t2] == row[t2 - prefix.len()]);
            }
        }
    }
}

/// Within one repetition no pairing is played twice.
pub proof fn lemma_round_robin_distinct(n: int)
    requires
        0 <= n,
    ensures
        forall|t1: int, t2: int|
            0 <= t1 < t2 < round_robin(n).len() ==> #[trigger] round_robin(n)[t1]
                != #[trigger] round_robin(n)[t2],
{
    lemma_rows_upto_distinct(n, n);
}

/// The ghost mirror of a slice of the executable match log.
pub open spec fn log_view(s: Seq<MatchResult>) -> Seq<MatchRecord> {
    Seq::new(s.len(), |t: int| s[t]@)
}

/// The points the participant at roster position `k` gains from a log of
/// match records played under the given pairings: its left scores where it
/// played on the left, plus its right scores where it played on the right.
pub open spec fn gains(log: Seq<MatchRecord>, pairs: Seq<(int, int)>, k: int) -> int
    recommends
        log.len() == pairs.len(),
    decreases pairs.len(),
{
    if pairs.len() == 0 {
        0
    } else {
        gains(log.drop_last(), pairs.drop_last(), k) + (if pairs.last().0 == k {
            log.last().left_score
        } else {
            0
        }) + (if pairs.last().1 == k {
            log.last().right_score
        } else {
            0
        })
    }
}

/// The limit on the points one participant can gain in one full run:
/// fewer than `iterations * n * n` matches are played, and one match pays
/// one side at most `5 * run_length`.
pub open spec fn run_budget(r: Runner) -> int {
    (r.iterations as int) * ((r.players@.len() as int) * (r.players@.len() as int)) * (5 * (
    r.run_length as int))
}

impl Runner {
    /// Runs the full tournament: for each repetition, every unordered pair
    /// of participants plays one match, in row order, and the cumulative
    /// scores and the match log accumulate.  Running again accumulates
    /// further instead of resetting.  With zero noise and a fully
    /// deterministic roster the resulting state is exactly the fold of the
    /// noiseless match model over the schedule.
    pub fn run(&mut self, rng: &mut Rand)
        requires
            old(self).wf(),
            forall|k: int|
                0 <= k < old(self).players@.len() ==> (#[trigger] old(self).players@[k]).1
                    + run_budget(*old(self)) <= u64::MAX,
        ensures
            final(self).wf(),
            final(self).run_length == old(self).run_length,
            final(self).iterations == old(self).iterations,
            final(self).noise == old(self).noise,
            final(self).players@.len() == old(self).players@.len(),
            forall|k: int|
                0 <= k < old(self).players@.len() ==> (#[trigger] final(self).players@[k]).0
                    == old(self).players@[k].0,
            forall|k: int|
                0 <= k < old(self).players@.len() ==> (#[trigger] final(self).players@[k]).1
                    >= old(self).players@[k].1,
            final(self).runs@.len() == old(self).runs@.len() + schedule(
                old(self).players@.len() as int,
                old(self).iterations as int,
            ).len(),
            final(self).runs@.subrange(0, old(self).runs@.len() as int) == old(self).runs@,
            forall|t: int|
                #![trigger schedule(old(self).players@.len() as int, old(self).iterations as int)[t]]
                0 <= t < schedule(
                    old(self).players@.len() as int,
                    old(self).iterations as int,
                ).len() ==> {
                    let pair = schedule(
                        old(self).players@.len() as int,
                        old(self).iterations as int,
                    )[t];
                    let entry = final(self).runs@[old(self).runs@.len() + t]@;
                    &&& entry.left_name == roster_of(*old(self))[pair.0].name_spec()
                    &&& entry.right_name == roster_of(*old(self))[pair.1].name_spec()
                    &&& 0 <= entry.left_score <= 5 * old(self).run_length
                    &&& 0 <= entry.right_score <= 5 * old(self).run_length
                },
            forall|k: int|
                #![trigger final(self).players@[k]]
                0 <= k < old(self).players@.len() ==> final(self).players@[k].1 == old(
                    self,
                ).players@[k].1 + gains(
                    log_view(
                        final(self).runs@.subrange(
                            old(self).runs@.len() as int,
                            final(self).runs@.len() as int,
                        ),
                    ),
                    schedule(old(self).players@.len() as int, old(self).iterations as int),
                    k,
                ),
            old(self).noise == 0 && old(self).all_deterministic() ==> state_of(*final(self))
                == apply_pairs(
                roster_of(*old(self)),
                old(self).run_length as nat,
                state_of(*old(self)),
                schedule(old(self).players@.len() as int, old(self).iterations as int),
            ),
    {
        let ghost init: Runner = *self;
        let n = self.players.len();
        let iterations = self.iterations;
        let run_length = self.run_length;
        let ghost mut done: Seq<(int, int)> = Seq::empty();
        let mut it: usize = 0;
        while it < iterations
            invariant
                self.wf(),
                self.noise == init.noise,
                self.run_length == init.run_length,
                self.iterations == init.iterations,
                n == init.players@.len(),
                iterations == init.iterations,
                run_length == init.run_length,
                it <= iterations,
                self.players@.len() == n,
                forall|k: int|
                    0 <= k < n ==> (#[trigger] self.players@[k]).0 == init.players@[k].0,
                forall|k: int|
                    0 <= k < n ==> (#[trigger] self.players@[k]).1 >= init.players@[k].1,
                forall|k: int|
                    0 <= k < n ==> (#[trigger] init.players@[k]).1 + run_budget(init) <= u64::MAX,
                forall|k: int|
                    0 <= k < n ==> (#[trigger] self.players@[k]).1 <= init.players@[k].1
                        + done.len() * (5 * (run_length as int)),
                done == schedule(n as int, it as int),
                done.len() <= (it as int) * ((n as int) * (n as int)),
                self.runs@.len() == init.runs@.len() + done.len(),
                self.runs@.subrange(0, init.runs@.len() as int) == init.runs@,
                forall|k: int|
                    #![trigger self.players@[k]]
                    0 <= k < n ==> self.players@[k].1 == init.players@[k].1 + gains(
                        log_view(
                            self.runs@.subrange(init.runs@.len() as int, self.runs@.len() as int),
                        ),
                        done,
                        k,
                    ),
                forall|t: int|
                    #![trigger done[t]]
                    0 <= t < done.len() ==> {
                        &&& 0 <= done[t].0 < n
                        &&& 0 <= done[t].1 < n
                        &&& self.runs@[init.runs@.len() + t]@.left_name == roster_of(
                            init,
                        )[done[t].0].name_spec()
                        &&& self.runs@[init.runs@.len() + t]@.right_name == roster_of(
                            init,
                        )[done[t].1].name_spec()
                        &&& 0 <= self.runs@[init.runs@.len() + t]@.left_score <= 5 * (
                        run_length as int)
                        &&& 0 <= self.runs@[init.runs@.len() + t]@.right_score <= 5 * (
                        run_length as int)
                    },
                init.noise == 0 && init.all_deterministic() ==> state_of(*self) == apply_pairs(
                    roster_of(init),
                    run_length as nat,
                    state_of(init),
                    done,
                ),
            decreases iterations - it,
        {
            let mut i: usize = 0;
            while i < n
                invariant
                    self.wf(),
                    self.noise == init.noise,
                    self.run_length == init.run_length,
                    self.iterations == init.iterations,
                    n == init.players@.len(),
                    iterations == init.iterations,
                    run_length == init.run_length,
                    it < iterations,
                    i <= n,
                    self.players@.len() == n,
                    forall|k: int|
                        0 <= k < n ==> (#[trigger] self.players@[k]).0 == init.players@[k].0,
                    forall|k: int|
                        0 <= k < n ==> (#[trigger] self.players@[k]).1 >= init.players@[k].1,
                    forall|k: int|
                        0 <= k < n ==> (#[trigger] init.players@[k]).1 + run_budget(init)
                            <= u64::MAX,
                    forall|k: int|
                        0 <= k < n ==> (#[trigger] self.players@[k]).1 <= init.players@[k].1
                            + done.len() * (5 * (run_length as int)),
                    done == schedule(n as int, it as int) + rows_upto(n as int, i as int),
                    done.len() <= (it as int) * ((n as int) * (n as int)) + (i as int) * (n as int),
                    self.runs@.len() == init.runs@.len() + done.len(),
                    self.runs@.subrange(0, init.runs@.len() as int) == init.runs@,
                    forall|k: int|
                        #![trigger self.players@[k]]
                        0 <= k < n ==> self.players@[k].1 == init.players@[k].1 + gains(
                            log_view(
                                self.runs@.subrange(init.runs@.len() as int, self.runs@.len() as int),
                            ),
                            done,
                            k,
                        ),
                    forall|t: int|
                        #![trigger done[t]]
                        0 <= t < done.len() ==> {
                            &&& 0 <= done[t].0 < n
                            &&& 0 <= done[t].1 < n
                            &&& self.runs@[init.runs@.len() + t]@.left_name == roster_of(
                                init,
                            )[done[t].0].name_spec()
                            &&& self.runs@[init.runs@.len() + t]@.right_name == roster_of(
                                init,
                            )[done[t].1].name_spec()
                            &&& 0 <= self.runs@[init.runs@.len() + t]@.left_score <= 5 * (
                            run_length as int)
                            &&& 0 <= self.runs@[init.runs@.len() + t]@.right_score <= 5 * (
                            run_length as int)
                        },
                    init.noise == 0 && init.all_deterministic() ==> state_of(*self) == apply_pairs(
                        roster_of(init),
                        run_length as nat,
                        state_of(init),
                        done,
                    ),
                decreases n - i,
            {
                let mut j: usize = i + 1;
                proof {
                    assert(row_pairs(i as int, j as int) =~= Seq::<(int, int)>::empty());
                    assert(done + row_pairs(i as int, j as int) =~= done);
                }
                while j < n
                    invariant
                        self.wf(),
                        self.noise == init.noise,
                        self.run_length == init.run_length,
                        self.iterations == init.iterations,
                        n == init.players@.len(),
                        iterations == init.iterations,
                        run_length == init.run_length,
                        it < iterations,
                        i < n,
                        i + 1 <= j <= n,
                        self.players@.len() == n,
                        forall|k: int|
                            0 <= k < n ==> (#[trigger] self.players@[k]).0 == init.players@[k].0,
                        forall|k: int|
                            0 <= k < n ==> (#[trigger] self.players@[k]).1 >= init.players@[k].1,
                        forall|k: int|
                            0 <= k < n ==> (#[trigger] init.players@[k]).1 + run_budget(init)
                                <= u64::MAX,
                        forall|k: int|
                            0 <= k < n ==> (#[trigger] self.players@[k]).1 <= init.players@[k].1
                                + done.len() * (5 * (run_length as int)),
                        done == schedule(n as int, it as int) + rows_upto(n as int, i as int)
                            + row_pairs(i as int, j as int),
                        done.len() <= (it as int) * ((n as int) * (n as int)) + (i as int) * (
                        n as int) + (j - i - 1),
                        self.runs@.len() == init.runs@.len() + done.len(),
                        self.runs@.subrange(0, init.runs@.len() as int) == init.runs@,
                        forall|k: int|
                            #![trigger self.players@[k]]
                            0 <= k < n ==> self.players@[k].1 == init.players@[k].1 + gains(
                                log_view(
                                    self.runs@.subrange(init.runs@.len() as int, self.runs@.len() as int),
                                ),
                                done,
                                k,
                            ),
                        forall|t: int|
                            #![trigger done[t]]
                            0 <= t < done.len() ==> {
                                &&& 0 <= done[t].0 < n
                                &&& 0 <= done[t].1 < n
                                &&& self.runs@[init.runs@.len() + t]@.left_name == roster_of(
                                    init,
                                )[done[t].0].name_spec()
                                &&& self.runs@[init.runs@.len() + t]@.right_name == roster_of(
                                    init,
                                )[done[t].1].name_spec()
                                &&& 0 <= self.runs@[init.runs@.len() + t]@.left_score <= 5 * (
                                run_length as int)
                                &&& 0 <= self.runs@[init.runs@.len() + t]@.right_score <= 5 * (
                                run_length as int)
                            },
                        init.noise == 0 && init.all_deterministic() ==> state_of(*self)
                            == apply_pairs(
                            roster_of(init),
                            run_length as nat,
                            state_of(init),
                            done,
                        ),
                    decreases n - j,
                {
                    proof {
                        lemma_match_fits(
                            done.len() as int,
                            it as int,
                            i as int,
                            j as int,
                            n as int,
                            iterations as int,
                            5 * (run_length as int),
                        );
                        assert((done.len() + 1) * (5 * (run_length as int)) == done.len() * (5 * (
                        run_length as int)) + 5 * (run_length as int)) by (nonlinear_arith);
                        assert(self.players@[i as int].1 + 5 * run_length <= u64::MAX);
                        assert(self.players@[j as int].1 + 5 * run_length <= u64::MAX);
                    }
                    let ghost prev: Runner = *self;
                    self.match_run(i, j, rng);
                    proof {
                        let ghost p = (i as int, j as int);
                        let ghost prev_done = done;
                        done = done.push(p);
                        assert(row_pairs(i as int, j as int).push(p) =~= row_pairs(
                            i as int,
                            j + 1 as int,
                        ));
                        assert(done =~= schedule(n as int, it as int) + rows_upto(n as int, i as int)
                            + row_pairs(i as int, j + 1 as int));
                        assert(self.runs@.subrange(0, init.runs@.len() as int) =~= prev.runs@.subrange(
                            0,
                            init.runs@.len() as int,
                        ));
                        let ghost old_entries = log_view(
                            prev.runs@.subrange(init.runs@.len() as int, prev.runs@.len() as int),
                        );
                        let ghost new_entries = log_view(
                            self.runs@.subrange(init.runs@.len() as int, self.runs@.len() as int),
                        );
                        let ghost e = self.runs@.last()@;
                        assert(new_entries =~= old_entries.push(e));
                        assert(new_entries.drop_last() =~= old_entries);
                        assert(done.drop_last() =~= prev_done);
                        assert forall|k: int| 0 <= k < n implies self.players@[k].1
                            == init.players@[k].1 + gains(new_entries, done, k) by {
                            assert(gains(new_entries, done, k) == gains(old_entries, prev_done, k)
                                + (if i as int == k {
                                e.left_score
                            } else {
                                0
                            }) + (if j as int == k {
                                e.right_score
                            } else {
                                0
                            }));
                        }
                        if init.noise == 0 && init.all_deterministic() {
                            let roster = roster_of(init);
                            let lst = state_of(prev);
                            let cst = state_of(*self);
                            let ms = match_state(
                                roster[i as int],
                                roster[j as int],
                                run_length as nat,
                            );
                            assert(prev.players@[i as int].0 == roster[i as int]);
                            assert(prev.players@[j as int].0 == roster[j as int]);
                            assert(cst.scores =~= lst.scores.update(
                                i as int,
                                lst.scores[i as int] + ms.left_score,
                            ).update(j as int, lst.scores[j as int] + ms.right_score));
                            assert(cst.log =~= lst.log.push(
                                MatchRecord {
                                    left_name: roster[i as int].name_spec(),
                                    right_name: roster[j as int].name_spec(),
                                    left_score: ms.left_score,
                                    right_score: ms.right_score,
                                },
                            ));
                            assert(cst =~= apply_match(
                                roster,
                                run_length as nat,
                                lst,
                                i as int,
                                j as int,
                            ));
                            assert(done.drop_last() =~= prev_done);
                            assert(state_of(*self) == apply_pairs(
                                roster,
                                run_length as nat,
                                state_of(init),
                                done,
                            ));
                        }
                    }
                    j += 1;
                }
                proof {
                    assert(rows_upto(n as int, i as int) + row_pairs(i as int, n as int)
                        =~= rows_upto(n as int, i + 1 as int));
                    assert(done =~= schedule(n as int, it as int) + rows_upto(
                        n as int,
                        i + 1 as int,
                    ));
                    assert(((i as int) + 1) * (n as int) == (i as int) * (n as int) + (n as int))
                        by (nonlinear_arith);
                }
                i += 1;
            }
            proof {
                assert(rows_upto(n as int, n as int) =~= round_robin(n as int));
                assert(done =~= schedule(n as int, it + 1 as int));
                assert(((it as int) + 1) * ((n as int) * (n as int)) == (it as int) * ((n as int) * (
                n as int)) + (n as int) * (n as int)) by (nonlinear_arith);
            }
            it += 1;
        }
    }
}

proof fn lemma_mul_mono(a: int, b: int, c: int)
    by (nonlinear_arith)
    requires
        a <= b,
        0 <= c,
    ensures
        a * c <= b * c,
{
}

/// With zero noise and a fully deterministic roster a tournament run is a
/// pure function of its starting state, the roster and the configuration:
/// two runs over the same schedule from equal starting states yield equal
/// cumulative scores and equal match logs.
pub proof fn lemma_run_deterministic(
    roster: Seq<StrategyKind>,
    rounds: nat,
    st1: TourneyState,
    st2: TourneyState,
    pairs: Seq<(int, int)>,
)
    requires
        st1 == st2,
    ensures
        apply_pairs(roster, rounds, st1, pairs) == apply_pairs(roster, rounds, st2, pairs),
{
}

proof fn lemma_rows_upto_len(n: int, i: int)
    requires
        0 <= i <= n,
    ensures
        2 * rows_upto(n, i).len() == i * (2 * n - i - 1),
    decreases i,
{
    if i > 0 {
        lemma_rows_upto_len(n, i - 1);
        assert(2 * rows_upto(n, i).len() == (i - 1) * (2 * n - i) + 2 * (n - i));
        assert((i - 1) * (2 * n - i) + 2 * (n - i) == i * (2 * n - i - 1)) by (nonlinear_arith);
    } else {
        assert(i * (2 * n - i - 1) == 0) by (nonlinear_arith)
            requires
                i == 0,
        ;
    }
}

/// The length of the full schedule: each repetition plays each of the
/// `n * (n - 1) / 2` unordered pairs once.
pub proof fn lemma_schedule_len(n: int, its: int)
    requires
        0 <= n,
        0 <= its,
    ensures
        2 * schedule(n, its).len() == its * (n * (n - 1)),
    decreases its,
{
    if its > 0 {
        lemma_schedule_len(n, its - 1);
        lemma_rows_upto_len(n, n);
        assert((its - 1) * (n * (n - 1)) + n * (2 * n - n - 1) == its * (n * (n - 1)))
            by (nonlinear_arith);
    } else {
        assert(its * (n * (n - 1)) == 0) by (nonlinear_arith)
            requires
                its == 0,
        ;
    }
}

/// Descending insertion of one named score into an already ranked list:
/// the new entry goes after every entry with a score at least as high, so
/// equal scores keep their existing order.
pub open spec fn rank_insert(
    x: (Seq<char>, int),
    s: Seq<(Seq<char>, int)>,
) -> Seq<(Seq<char>, int)>
    decreases s.len(),
{
    if s.len() == 0 {
        seq![x]
    } else if x.1 > s[0].1 {
        seq![x] + s
    } else {
        seq![s[0]] + rank_insert(x, s.drop_first())
    }
}

/// The ranking of a list of named scores: sorted by score descending, ties
/// broken by keeping the roster order.
pub open spec fn rank_spec(s: Seq<(Seq<char>, int)>) -> Seq<(Seq<char>, int)>
    decreases s.len(),
{
    if s.len() == 0 {
        Seq::empty()
    } else {
        rank_insert(s.last(), rank_spec(s.drop_last()))
    }
}

/// The named cumulative scores of a tournament, in roster order.
pub open spec fn named_scores(r: Runner) -> Seq<(Seq<char>, int)> {
    Seq::new(r.players@.len(), |k: int| (r.players@[k].0.name_spec(), r.players@[k].1 as int))
}

/// The ghost mirror of an executable score list.
pub open spec fn score_views(s: Seq<(String, u64)>) -> Seq<(Seq<char>, int)> {
    Seq::new(s.len(), |k: int| (s[k].0@, s[k].1 as int))
}

/// Whether the scores of a named score list never increase along it.
pub open spec fn sorted_desc(s: Seq<(Seq<char>, int)>) -> bool {
    forall|a: int, b: int| 0 <= a <= b < s.len() ==> s[a].1 >= s[b].1
}

proof fn lemma_rank_insert_sorted(x: (Seq<char>, int), s: Seq<(Seq<char>, int)>)
    requires
        sorted_desc(s),
    ensures
        sorted_desc(rank_insert(x, s)),
        rank_insert(x, s).len() == s.len() + 1,
        rank_insert(x, s)[0].1 == if s.len() == 0 || x.1 > s[0].1 {
            x.1
        } else {
            s[0].1
        },
    decreases s.len(),
{
    if s.len() == 0 {
    } else if x.1 > s[0].1 {
    } else {
        assert(sorted_desc(s.drop_first()));
        lemma_rank_insert_sorted(x, s.drop_first());
        let t = rank_insert(x, s.drop_first());
        assert(forall|b: int| 0 <= b < t.len() ==> s[0].1 >= #[trigger] t[b].1);
    }
}

/// The ranking is sorted by cumulative score, descending.
pub proof fn lemma_rank_spec_sorted(s: Seq<(Seq<char>, int)>)
    ensures
        sorted_desc(rank_spec(s)),
        rank_spec(s).len() == s.len(),
    decreases s.len(),
{
    if s.len() > 0 {
        lemma_rank_spec_sorted(s.drop_last());
        lemma_rank_insert_sorted(s.last(), rank_spec(s.drop_last()));
    }
}

proof fn lemma_rank_insert_at(x: (Seq<char>, int), s: Seq<(Seq<char>, int)>, pos: int)
    requires
        0 <= pos <= s.len(),
        forall|t: int| 0 <= t < pos ==> (#[trigger] s[t]).1 >= x.1,
        pos < s.len() ==> s[pos].1 < x.1,
    ensures
        rank_insert(x, s) == s.insert(pos, x),
    decreases s.len(),
{
    if s.len() == 0 {
        assert(rank_insert(x, s) =~= s.insert(0, x));
    } else if x.1 > s[0].1 {
        assert(pos == 0);
        assert(rank_insert(x, s) =~= s.insert(0, x));
    } else {
        assert(pos >= 1);
        lemma_rank_insert_at(x, s.drop_first(), pos - 1);
        assert(seq![s[0]] + s.drop_first().insert(pos - 1, x) =~= s.insert(pos, x));
    }
}

impl Runner {
    /// The (name, cumulative score) pairs, in roster order.
    pub fn scores(&self) -> (r: Vec<(String, u64)>)
        ensures
            r@.len() == self.players@.len(),
            forall|k: int|
                0 <= k < self.players@.len() ==> (#[trigger] r@[k]).1 == self.players@[k].1
                    && r@[k].0@ == self.players@[k].0.name_spec(),
    {
        let n = self.players.len();
        let mut out: Vec<(String, u64)> = Vec::new();
        let mut i: usize = 0;
        while i < n
            invariant
                i <= n,
                n == self.players@.len(),
                out@.len() == i,
                forall|k: int|
                    0 <= k < i ==> (#[trigger] out@[k]).1 == self.players@[k].1 && out@[k].0@
                        == self.players@[k].0.name_spec(),
            decreases n - i,
        {
            let p = self.players[i];
            out.push((p.0.name(), p.1));
            i += 1;
        }
        out
    }

    /// The ranked result: the (name, cumulative score) pairs sorted by
    /// score descending, with ties keeping roster order.
    pub fn ranking(&self) -> (r: Vec<(String, u64)>)
        ensures
            score_views(r@) == rank_spec(named_scores(*self)),
    {
        let n = self.players.len();
        let mut out: Vec<(String, u64)> = Vec::new();
        proof {
            assert(score_views(out@) =~= rank_spec(named_scores(*self).take(0)));
        }
        let mut k: usize = 0;
        while k < n
            invariant
                k <= n,
                n == self.players@.len(),
                out@.len() == k,
                score_views(out@) == rank_spec(named_scores(*self).take(k as int)),
            decreases n - k,
        {
            let p = self.players[k];
            let x = (p.0.name(), p.1);
            let pos = insert_pos(&out, x.1);
            let ghost prev = out@;
            let ghost xv = (x.0@, x.1 as int);
            out.insert(pos, x);
            proof {
                lemma_rank_insert_at(xv, score_views(prev), pos as int);
                assert(score_views(out@) =~= score_views(prev).insert(pos as int, xv));
                let taken = named_scores(*self).take(k + 1 as int);
                assert(taken.drop_last() =~= named_scores(*self).take(k as int));
                assert(taken.last() == xv);
                assert(score_views(out@) == rank_spec(taken));
            }
            k += 1;
        }
        proof {
            assert(named_scores(*self).take(n as int) =~= named_scores(*self));
        }
        out
    }
}

/// The first position whose score is strictly below `score`, scanning from
/// the front; the length if there is none.
fn insert_pos(v: &Vec<(String, u64)>, score: u64) -> (pos: usize)
    ensures
        pos <= v@.len(),
        forall|t: int| 0 <= t < pos ==> (#[trigger] v@[t]).1 >= score,
        pos < v@.len() ==> v@[pos as int].1 < score,
{
    let m = v.len();
    let mut pos: usize = 0;
    while pos < m
        invariant
            pos <= m,
            m == v@.len(),
            forall|t: int| 0 <= t < pos ==> (#[trigger] v@[t]).1 >= score,
        decreases m - pos,
    {
        if v[pos].1 < score {
            return pos;
        }
        pos += 1;
    }
    pos
}

/// Before the match at position `(it, i, j)` of the schedule at most
/// `it*n*n + i*n + (j-i-1)` matches have been played, and one more match
/// still fits under the budget.
proof fn lemma_match_fits(m: int, it: int, i: int, j: int, n: int, its: int, len5: int)
    requires
        0 <= len5,
        0 <= i < n,
        i < j < n,
        0 <= it < its,
        0 <= m,
        m <= it * (n * n) + i * n + (j - i - 1),
    ensures
        (m + 1) * len5 <= its * (n * n) * len5,
{
    assert(m + 1 <= it * (n * n) + i * n + n) by (nonlinear_arith)
        requires
            m <= it * (n * n) + i * n + (j - i - 1),
            0 <= i,
            i < j < n,
    ;
    assert(it * (n * n) + i * n + n <= its * (n * n)) by (nonlinear_arith)
        requires
            0 <= i < n,
            0 <= it < its,
    ;
    lemma_mul_mono(m + 1, its * (n * n), len5);
}

} // verus!
