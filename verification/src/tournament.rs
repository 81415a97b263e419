use crate::battle::{battle_scores, lemma_match_bounds, run_battle};
use crate::cancel::check_running;
use crate::scoreboard::{
    award, board_total, lemma_award_adds_to_total, points_of, Scoreboard,
};
use crate::strategies::enums::{get_strategies, roster, StrategyEnum};
use std::sync::atomic::AtomicBool;
use std::sync::Arc;
use vstd::prelude::*;

verus! {

/// The number of ordered pairings of the roster with itself.
pub const PAIRINGS: usize = 25;

/// The most rounds a match of a tournament can have. A strategy stands in at
/// most ten places of the pairings and takes at most five points a round, so
/// every total then still fits a `Score`.
pub const MAX_TOURNAMENT_ROUNDS: i64 = 42_949_672;

/// The pairings in the order in which a tournament walks them: the roster
/// against itself, the first player changing slowest.
pub open spec fn pairing(k: int) -> (StrategyEnum, StrategyEnum) {
    (roster()[k / 5], roster()[k % 5])
}

/// Whether a pairing is played: a strategy meets itself only with self-play.
pub open spec fn is_played(pair: (StrategyEnum, StrategyEnum), self_play: bool) -> bool {
    self_play || pair.0 != pair.1
}

/// The board after the result of one match has been entered: the first
/// player's points, then the second's.
pub open spec fn record(
    board: Map<StrategyEnum, int>,
    pair: (StrategyEnum, StrategyEnum),
    scores: (int, int),
) -> Map<StrategyEnum, int> {
    award(award(board, pair.0, scores.0), pair.1, scores.1)
}

/// The board once the first `pairs_done` pairings have been dealt with, every
/// match that was played having run for `iterations` rounds.
pub open spec fn standings(iterations: nat, self_play: bool, pairs_done: nat) -> Map<
    StrategyEnum,
    int,
>
    decreases pairs_done,
{
    if pairs_done == 0 {
        Map::empty()
    } else {
        let before = standings(iterations, self_play, (pairs_done - 1) as nat);
        let pair = pairing(pairs_done - 1);
        if is_played(pair, self_play) {
            record(before, pair, battle_scores(pair.0, pair.1, iterations))
        } else {
            before
        }
    }
}

/// The board of a tournament that got as far as `pairs_done` pairings. With a
/// `cut` it was stopped during the match of the next pairing, after that many
/// rounds, and the points of those rounds are on the board.
pub open spec fn standings_at(
    iterations: nat,
    self_play: bool,
    pairs_done: nat,
    cut: Option<nat>,
) -> Map<StrategyEnum, int> {
    let board = standings(iterations, self_play, pairs_done);
    match cut {
        None => board,
        Some(rounds) => {
            let pair = pairing(pairs_done as int);
            record(board, pair, battle_scores(pair.0, pair.1, rounds))
        },
    }
}

/// Whether a tournament can stop after `pairs_done` pairings and, with a `cut`,
/// that many rounds into the next match.
pub open spec fn is_stop(iterations: nat, self_play: bool, pairs_done: nat, cut: Option<nat>) -> bool {
    &&& pairs_done <= PAIRINGS
    &&& cut matches Some(rounds) ==> {
        &&& pairs_done < PAIRINGS
        &&& is_played(pairing(pairs_done as int), self_play)
        &&& rounds < iterations
    }
}

/// In how many places of the first `pairs_done` pairings the strategy at roster
/// position `position` stands, as first or as second player.
pub open spec fn places(position: int, pairs_done: int) -> int {
    let first = if pairs_done <= 5 * position {
        0
    } else if pairs_done >= 5 * position + 5 {
        5
    } else {
        pairs_done - 5 * position
    };
    let second = pairs_done / 5 + if pairs_done % 5 > position {
        1int
    } else {
        0int
    };
    first + second
}

/// All the points that the matches of the first `pairs_done` pairings gave to
/// both of their players.
pub open spec fn points_played(iterations: nat, self_play: bool, pairs_done: nat) -> int
    decreases pairs_done,
{
    if pairs_done == 0 {
        0
    } else {
        let pair = pairing(pairs_done - 1);
        let scores = battle_scores(pair.0, pair.1, iterations);
        points_played(iterations, self_play, (pairs_done - 1) as nat) + if is_played(
            pair,
            self_play,
        ) {
            scores.0 + scores.1
        } else {
            0
        }
    }
}

/// Every pairing is a pair of roster entries, and dealing with it adds one
/// place for each of its players.
proof fn lemma_places_step(player: StrategyEnum, pairs_done: int)
    requires
        0 <= pairs_done < PAIRINGS,
    ensures
        pairing(pairs_done).0.position() == pairs_done / 5,
        pairing(pairs_done).1.position() == pairs_done % 5,
        places(player.position(), pairs_done + 1) == places(player.position(), pairs_done) + (if pairing(
            pairs_done,
        ).0 == player {
            1int
        } else {
            0int
        }) + (if pairing(pairs_done).1 == player {
            1int
        } else {
            0int
        }),
        0 <= places(player.position(), pairs_done) <= places(player.position(), pairs_done + 1) <= 10,
{
}

/// A number of places times the most points of one match is at most ten times
/// those points.
proof fn lemma_places_scaled(unit: int, count: int)
    requires
        0 <= unit,
        0 <= count <= 10,
    ensures
        0 <= unit * count <= unit * 10,
        unit * (count + 1) == unit * count + unit,
        unit * (count + 2) == unit * count + unit + unit,
{
    assert(0 <= unit * count <= unit * 10) by (nonlinear_arith)
        requires
            0 <= unit,
            0 <= count <= 10,
    ;
    assert(unit * (count + 1) == unit * count + unit) by (nonlinear_arith);
    assert(unit * (count + 2) == unit * count + unit + unit) by (nonlinear_arith);
}

/// No total of a tournament under way is negative, and none is above five
/// points a round for every place in which the strategy has stood.
pub proof fn lemma_standings_bounds(
    iterations: nat,
    self_play: bool,
    pairs_done: nat,
    player: StrategyEnum,
)
    requires
        pairs_done <= PAIRINGS,
    ensures
        0 <= points_of(standings(iterations, self_play, pairs_done), player) <= 5 * iterations
            * places(player.position(), pairs_done as int),
        0 <= places(player.position(), pairs_done as int) <= 10,
    decreases pairs_done,
{
    let unit = 5 * iterations;
    if pairs_done == 0 {
        assert(unit * 0 == 0);
    } else {
        let done = (pairs_done - 1) as nat;
        lemma_standings_bounds(iterations, self_play, done, player);
        lemma_places_step(player, done as int);
        let pair = pairing(done as int);
        lemma_match_bounds(pair.0, pair.1, iterations);
        lemma_places_scaled(unit as int, places(player.position(), done as int));
    }
}

/// The board accounts for every point played: the totals of a tournament add
/// up to the points that its matches gave, which are between two and six for
/// every round of every match played.
pub proof fn lemma_standings_total(iterations: nat, self_play: bool, pairs_done: nat)
    ensures
        board_total(standings(iterations, self_play, pairs_done)) == points_played(
            iterations,
            self_play,
            pairs_done,
        ),
        0 <= points_played(iterations, self_play, pairs_done) <= 6 * iterations * pairs_done,
    decreases pairs_done,
{
    if pairs_done > 0 {
        let done = (pairs_done - 1) as nat;
        lemma_standings_total(iterations, self_play, done);
        let pair = pairing(done as int);
        let scores = battle_scores(pair.0, pair.1, iterations);
        let before = standings(iterations, self_play, done);
        lemma_match_bounds(pair.0, pair.1, iterations);
        lemma_award_adds_to_total(before, pair.0, scores.0);
        lemma_award_adds_to_total(award(before, pair.0, scores.0), pair.1, scores.1);
        let unit = 6 * iterations;
        assert(unit * pairs_done == unit * done + unit) by (nonlinear_arith)
            requires
                pairs_done == done + 1,
        ;
    }
}

/// Runs the round robin: every strategy of the roster meets every strategy of
/// the roster, itself only with `self_play`, for `iterations` rounds, and the
/// points of both players of each match go on the board.
///
/// Where a running flag is given it is polled before every pairing and, by the
/// match, before every round. Once it is cleared no further match is started,
/// and the board is returned as it then stands.
pub fn tournament(running: Option<Arc<AtomicBool>>, iterations: i64, self_play: bool) -> (board:
    Scoreboard)
    requires
        0 <= iterations <= MAX_TOURNAMENT_ROUNDS,
    ensures
        exists|pairs_done: nat, cut: Option<nat>|
            is_stop(iterations as nat, self_play, pairs_done, cut) && board@ == #[trigger] standings_at(
                iterations as nat,
                self_play,
                pairs_done,
                cut,
            ),
        running is None ==> board@ == standings(iterations as nat, self_play, PAIRINGS as nat),
{
    let players = get_strategies();
    let mut board = Scoreboard::default();
    let mut k: usize = 0;
    while k < PAIRINGS
        invariant
            players@ == roster(),
            0 <= iterations <= MAX_TOURNAMENT_ROUNDS,
            k <= PAIRINGS,
            board@ == standings(iterations as nat, self_play, k as nat),
        decreases PAIRINGS - k,
    {
        match &running {
            Some(flag) => {
                match check_running(flag) {
                    Ok(_) => {},
                    Err(_) => {
                        assert(board@ == standings_at(
                            iterations as nat,
                            self_play,
                            k as nat,
                            None,
                        ));
                        return board;
                    },
                }
            },
            None => {},
        }
        let i = players[k / 5];
        let j = players[k % 5];
        assert((i, j) == pairing(k as int));
        if self_play || i != j {
            let (i_score, j_score, rounds) = run_battle(&running, i, j, iterations);
            proof {
                lemma_match_bounds(i, j, rounds as nat);
                lemma_standings_bounds(iterations as nat, self_play, k as nat, i);
                lemma_standings_bounds(iterations as nat, self_play, k as nat, j);
                lemma_places_step(i, k as int);
                lemma_places_step(j, k as int);
                let unit = 5 * iterations;
                let i_count = places(i.position(), k as int);
                let j_count = places(j.position(), k as int);
                lemma_places_scaled(unit, i_count);
                lemma_places_scaled(unit, j_count);
                lemma_places_scaled(unit, i_count + 1);
                lemma_places_scaled(unit, j_count + 1);
                if i == j {
                    lemma_places_scaled(unit, i_count + 2);
                }
            }
            board.add_score(i, i_score);
            board.add_score(j, j_score);
            if rounds < iterations {
                assert(board@ == standings_at(
                    iterations as nat,
                    self_play,
                    k as nat,
                    Some(rounds as nat),
                ));
                return board;
            }
        }
        k += 1;
    }
    assert(board@ == standings_at(iterations as nat, self_play, PAIRINGS as nat, None));
    board
}

} // verus!
