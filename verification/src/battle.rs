use crate::cancel::check_running;
use crate::strategies::enums::StrategyEnum;
use crate::strategies::model::{lemma_reset_forgets_history, StrategyState};
use crate::strategies::{get_strategy, Action, AnyStrategy, Strategy};
use crate::types::Score;
use std::sync::atomic::AtomicBool;
use std::sync::Arc;
use vstd::prelude::*;

verus! {

/// The most rounds one match can have: with at most five points a round, every
/// total then still fits a `Score`.
pub const MAX_ROUNDS: i64 = 429_496_729;

/// The payoff table: the points of the first and of the second player for one
/// pair of simultaneous moves.
pub open spec fn payoff(action: Action, reaction: Action) -> (int, int) {
    match (action, reaction) {
        (Action::Cooperate, Action::Cooperate) => (3, 3),
        (Action::Defect, Action::Defect) => (1, 1),
        (Action::Cooperate, Action::Defect) => (0, 5),
        (Action::Defect, Action::Cooperate) => (5, 0),
    }
}

/// Scores the actions of two players.
pub fn score(action: Action, reaction: Action) -> (points: (Score, Score))
    ensures
        (points.0 as int, points.1 as int) == payoff(action, reaction),
        points.0 + points.1 == 2 || points.0 + points.1 == 5 || points.0 + points.1 == 6,
{
    match (action, reaction) {
        (Action::Cooperate, Action::Cooperate) => (3, 3),
        (Action::Defect, Action::Defect) => (1, 1),
        (Action::Cooperate, Action::Defect) => (0, 5),
        (Action::Defect, Action::Cooperate) => (5, 0),
    }
}

/// A match in progress, as a mathematical value: the states of both players and
/// the points each has so far.
pub ghost struct MatchState {
    pub i: StrategyState,
    pub j: StrategyState,
    pub i_score: int,
    pub j_score: int,
}

impl MatchState {
    /// The start of a match: both players fresh, no points yet.
    pub open spec fn start(i_enum: StrategyEnum, j_enum: StrategyEnum) -> MatchState {
        MatchState {
            i: StrategyState::initial(i_enum),
            j: StrategyState::initial(j_enum),
            i_score: 0,
            j_score: 0,
        }
    }

    /// One round. Both players decide from what they have seen so far, neither
    /// knowing the other's move; then each observes the other's move, and the
    /// payoff of the pair of moves is added to the totals.
    pub open spec fn next(self) -> MatchState {
        let action = self.i.decision();
        let reaction = self.j.decision();
        MatchState {
            i: self.i.observed(reaction),
            j: self.j.observed(action),
            i_score: self.i_score + payoff(action, reaction).0,
            j_score: self.j_score + payoff(action, reaction).1,
        }
    }

    /// The match after the given number of further rounds.
    pub open spec fn after(self, rounds: nat) -> MatchState
        decreases rounds,
    {
        if rounds == 0 {
            self
        } else {
            self.after((rounds - 1) as nat).next()
        }
    }
}

/// The points of both players after the given number of rounds of a match
/// between fresh instances of the two strategies.
pub open spec fn battle_scores(i_enum: StrategyEnum, j_enum: StrategyEnum, rounds: nat) -> (
    int,
    int,
) {
    let end = MatchState::start(i_enum, j_enum).after(rounds);
    (end.i_score, end.j_score)
}

/// What holds of every match after any number of rounds: the players are still
/// the strategies that started, no total is negative or above five points a
/// round, the two totals together lie between two and six points a round, and
/// patience has sunk by at most one a round.
pub proof fn lemma_match_bounds(i_enum: StrategyEnum, j_enum: StrategyEnum, rounds: nat)
    ensures
        ({
            let end = MatchState::start(i_enum, j_enum).after(rounds);
            &&& end.i.identity() == i_enum
            &&& end.j.identity() == j_enum
            &&& 0 <= end.i_score <= 5 * rounds
            &&& 0 <= end.j_score <= 5 * rounds
            &&& 2 * rounds <= end.i_score + end.j_score <= 6 * rounds
            &&& end.i matches StrategyState::TitFor2Tats { patience } ==> 2 - rounds <= patience <= 2
            &&& end.j matches StrategyState::TitFor2Tats { patience } ==> 2 - rounds <= patience <= 2
        }),
    decreases rounds,
{
    if rounds > 0 {
        lemma_match_bounds(i_enum, j_enum, (rounds - 1) as nat);
    }
}

/// A match of no rounds gives no points.
pub proof fn lemma_zero_rounds(i_enum: StrategyEnum, j_enum: StrategyEnum)
    ensures
        battle_scores(i_enum, j_enum, 0) == (0int, 0int),
{
}

/// The two players of a round get two, five or six points between them.
pub proof fn lemma_payoff_sum(action: Action, reaction: Action)
    ensures
        ({
            let sum = payoff(action, reaction).0 + payoff(action, reaction).1;
            sum == 2 || sum == 5 || sum == 6
        }),
{
}

/// Every round adds the payoff of the moves that the two players make in it.
pub proof fn lemma_round_adds_payoff(i_enum: StrategyEnum, j_enum: StrategyEnum, rounds: nat)
    ensures
        ({
            let before = MatchState::start(i_enum, j_enum).after(rounds);
            let points = payoff(before.i.decision(), before.j.decision());
            &&& battle_scores(i_enum, j_enum, rounds + 1).0 == battle_scores(
                i_enum,
                j_enum,
                rounds,
            ).0 + points.0
            &&& battle_scores(i_enum, j_enum, rounds + 1).1 == battle_scores(
                i_enum,
                j_enum,
                rounds,
            ).1 + points.1
            &&& points.0 + points.1 == 2 || points.0 + points.1 == 5 || points.0 + points.1 == 6
        }),
{
    assert(MatchState::start(i_enum, j_enum).after(rounds + 1) == MatchState::start(
        i_enum,
        j_enum,
    ).after(rounds).next());
}

/// A match does not depend on what its players went through before: whatever
/// the two strategies have observed in earlier matches, once both are reset the
/// match between them runs as between fresh instances.
pub proof fn lemma_reset_isolation(
    i_enum: StrategyEnum,
    j_enum: StrategyEnum,
    i_history: Seq<Action>,
    j_history: Seq<Action>,
    rounds: nat,
)
    ensures
        ({
            let rematch = MatchState {
                i: StrategyState::initial(i_enum).observed_all(i_history).reset(),
                j: StrategyState::initial(j_enum).observed_all(j_history).reset(),
                i_score: 0,
                j_score: 0,
            };
            &&& rematch == MatchState::start(i_enum, j_enum)
            &&& rematch.after(rounds).i_score == battle_scores(i_enum, j_enum, rounds).0
            &&& rematch.after(rounds).j_score == battle_scores(i_enum, j_enum, rounds).1
        }),
{
    lemma_reset_forgets_history(i_enum, i_history);
    lemma_reset_forgets_history(j_enum, j_history);
}

/// Strategies that do not defect first never defect on each other: a match
/// between any two strategies but the constant defector gives both three points
/// a round.
pub proof fn lemma_peaceful_match(i_enum: StrategyEnum, j_enum: StrategyEnum, rounds: nat)
    requires
        i_enum != StrategyEnum::AlwaysDefect,
        j_enum != StrategyEnum::AlwaysDefect,
    ensures
        MatchState::start(i_enum, j_enum).after(rounds) == (MatchState {
            i_score: 3 * (rounds as int),
            j_score: 3 * (rounds as int),
            ..MatchState::start(i_enum, j_enum)
        }),
        battle_scores(i_enum, j_enum, rounds) == (3 * (rounds as int), 3 * (rounds as int)),
    decreases rounds,
{
    if rounds > 0 {
        lemma_peaceful_match(i_enum, j_enum, (rounds - 1) as nat);
    }
}

/// Against the constant defector, patience for two defections costs two rounds:
/// the patient strategy gets nothing for them and one point a round from then
/// on, while the defector gets five points for each of them and one point a
/// round from then on.
pub proof fn lemma_patience_runs_out(rounds: nat)
    ensures
        ({
            let end = MatchState::start(
                StrategyEnum::TitFor2Tats,
                StrategyEnum::AlwaysDefect,
            ).after(rounds);
            &&& end.i == (StrategyState::TitFor2Tats { patience: 2 - rounds })
            &&& end.j == StrategyState::AlwaysDefect
            &&& rounds <= 2 ==> end.i_score == 0 && end.j_score == 5 * rounds
            &&& rounds > 2 ==> end.i_score == rounds - 2 && end.j_score == rounds + 8
        }),
    decreases rounds,
{
    if rounds > 0 {
        lemma_patience_runs_out((rounds - 1) as nat);
    }
}

/// Two strategies playing one match, round by round.
///
/// A match always stands where the given number of rounds from a fresh start
/// lead: its scores are a function of the two identities and of the rounds
/// played.
#[derive(Debug)]
pub struct Match {
    i_enum: StrategyEnum,
    j_enum: StrategyEnum,
    i: AnyStrategy,
    j: AnyStrategy,
    i_score: Score,
    j_score: Score,
    rounds: i64,
}

impl Match {
    /// The identities of the first and of the second player.
    pub closed spec fn contestants(&self) -> (StrategyEnum, StrategyEnum) {
        (self.i_enum, self.j_enum)
    }

    /// How many rounds have been played since the start or the last reset.
    pub closed spec fn rounds_played(&self) -> nat {
        self.rounds as nat
    }

    /// The match is where its rounds lead from a fresh start, and has not been
    /// played beyond `MAX_ROUNDS`.
    pub closed spec fn wf(&self) -> bool {
        let now = MatchState::start(self.i_enum, self.j_enum).after(self.rounds as nat);
        &&& 0 <= self.rounds <= MAX_ROUNDS
        &&& self.i.state() == now.i
        &&& self.j.state() == now.j
        &&& self.i_score == now.i_score
        &&& self.j_score == now.j_score
    }

    /// Sets up a match between fresh instances of the two strategies.
    pub fn new(i_enum: StrategyEnum, j_enum: StrategyEnum) -> (fresh: Match)
        ensures
            fresh.wf(),
            fresh.contestants() == (i_enum, j_enum),
            fresh.rounds_played() == 0,
    {
        Match {
            i_enum,
            j_enum,
            i: get_strategy(i_enum),
            j: get_strategy(j_enum),
            i_score: 0,
            j_score: 0,
            rounds: 0,
        }
    }

    /// How many rounds have been played since the start or the last reset.
    pub fn rounds(&self) -> (rounds: i64)
        requires
            self.wf(),
        ensures
            rounds == self.rounds_played(),
            0 <= rounds <= MAX_ROUNDS,
    {
        self.rounds
    }

    /// The points of the first and of the second player so far.
    pub fn scores(&self) -> (scores: (Score, Score))
        requires
            self.wf(),
        ensures
            (scores.0 as int, scores.1 as int) == battle_scores(
                self.contestants().0,
                self.contestants().1,
                self.rounds_played(),
            ),
    {
        (self.i_score, self.j_score)
    }

    /// Plays one round: both players move independently, each learns the
    /// other's move, and the round is scored.
    pub fn play_round(&mut self)
        requires
            old(self).wf(),
            old(self).rounds_played() < MAX_ROUNDS,
        ensures
            final(self).wf(),
            final(self).contestants() == old(self).contestants(),
            final(self).rounds_played() == old(self).rounds_played() + 1,
    {
        proof {
            lemma_match_bounds(self.i_enum, self.j_enum, self.rounds as nat);
            lemma_match_bounds(self.i_enum, self.j_enum, (self.rounds + 1) as nat);
        }
        let (action, reaction) = (self.i.get(), self.j.get());
        self.j.put(&action);
        self.i.put(&reaction);
        let (i_points, j_points) = score(action, reaction);
        self.i_score += i_points;
        self.j_score += j_points;
        self.rounds += 1;
    }

    /// Starts the match over: both players forget what they have observed and
    /// the points are cleared, as in a match newly set up.
    pub fn reset(&mut self)
        requires
            old(self).wf(),
        ensures
            final(self).wf(),
            final(self).contestants() == old(self).contestants(),
            final(self).rounds_played() == 0,
    {
        proof {
            lemma_match_bounds(self.i_enum, self.j_enum, self.rounds as nat);
        }
        self.i.reset();
        self.j.reset();
        self.i_score = 0;
        self.j_score = 0;
        self.rounds = 0;
    }
}

/// Plays a battle between two strategies for up to `iterations` rounds and
/// reports, behind the points of both, how many rounds were played.
///
/// Where a running flag is given it is polled before every round, and the
/// battle stops with the points gathered so far once the flag is cleared.
/// Fewer rounds than `iterations` in the report mean that it was.
pub fn run_battle(
    running: &Option<Arc<AtomicBool>>,
    i_enum: StrategyEnum,
    j_enum: StrategyEnum,
    iterations: i64,
) -> (report: (Score, Score, i64))
    requires
        0 <= iterations <= MAX_ROUNDS,
    ensures
        0 <= report.2 <= iterations,
        (report.0 as int, report.1 as int) == battle_scores(i_enum, j_enum, report.2 as nat),
        running is None ==> report.2 == iterations,
{
    let mut game = Match::new(i_enum, j_enum);
    let mut round: i64 = 0;
    while round < iterations
        invariant
            game.wf(),
            game.contestants() == (i_enum, j_enum),
            game.rounds_played() == round,
            0 <= round <= iterations <= MAX_ROUNDS,
        decreases iterations - round,
    {
        match running {
            Some(flag) => {
                match check_running(flag) {
                    Ok(_) => {},
                    Err(_) => {
                        let (i_score, j_score) = game.scores();
                        return (i_score, j_score, round);
                    },
                }
            },
            None => {},
        }
        game.play_round();
        round += 1;
    }
    let (i_score, j_score) = game.scores();
    (i_score, j_score, round)
}

/// Executes a battle between two strategies over `iterations` rounds.
///
/// Where a running flag is given it is polled before every round, and the
/// battle stops with the points gathered so far once the flag is cleared.
/// `verbose` is for the caller's progress display: it has no effect on the
/// result.
#[allow(unused_variables)]
pub fn battle(
    running: Option<Arc<AtomicBool>>,
    i_enum: StrategyEnum,
    j_enum: StrategyEnum,
    iterations: i64,
    verbose: bool,
) -> (scores: (Score, Score))
    requires
        0 <= iterations <= MAX_ROUNDS,
    ensures
        exists|rounds: nat|
            rounds <= iterations && (scores.0 as int, scores.1 as int) == #[trigger] battle_scores(
                i_enum,
                j_enum,
                rounds,
            ),
        running is None ==> (scores.0 as int, scores.1 as int) == battle_scores(
            i_enum,
            j_enum,
            iterations as nat,
        ),
        iterations == 0 ==> scores == (0i32, 0i32),
{
    let (i_score, j_score, rounds) = run_battle(&running, i_enum, j_enum, iterations);
    assert((i_score as int, j_score as int) == battle_scores(i_enum, j_enum, rounds as nat));
    (i_score, j_score)
}

} // verus!
