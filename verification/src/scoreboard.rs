use crate::strategies::enums::{get_strategies, roster, StrategyEnum};
use crate::types::Score;
use std::collections::HashMap;
use vstd::prelude::*;

verus! {

broadcast use vstd::std_specs::hash::group_hash_axioms;

/// The points a strategy has on a board: nothing before its first award.
pub open spec fn points_of(board: Map<StrategyEnum, int>, player: StrategyEnum) -> int {
    if board.contains_key(player) {
        board[player]
    } else {
        0
    }
}

/// The board after `points` have been added to the total of `player`. A player
/// is entered with its first award, also where that award is zero.
pub open spec fn award(board: Map<StrategyEnum, int>, player: StrategyEnum, points: int) -> Map<
    StrategyEnum,
    int,
> {
    board.insert(player, points_of(board, player) + points)
}

/// All points on a board together.
pub open spec fn board_total(board: Map<StrategyEnum, int>) -> int {
    points_of(board, StrategyEnum::AlwaysCooperate) + points_of(board, StrategyEnum::HoldsGrudge)
        + points_of(board, StrategyEnum::TitForTat) + points_of(board, StrategyEnum::TitFor2Tats)
        + points_of(board, StrategyEnum::AlwaysDefect)
}

/// The order of the ranking: the higher total first, and of two equal totals
/// the one whose strategy comes first on the roster.
pub open spec fn ranks_before(x: (Score, StrategyEnum), y: (Score, StrategyEnum)) -> bool {
    x.0 > y.0 || (x.0 == y.0 && x.1.position() < y.1.position())
}

/// Whether every entry of `ranking` ranks before all that follow it.
pub open spec fn is_ranked(ranking: Seq<(Score, StrategyEnum)>) -> bool {
    forall|a: int, b: int|
        0 <= a < b < ranking.len() ==> ranks_before(#[trigger] ranking[a], #[trigger] ranking[b])
}

/// Whether `ranking` is the ranking of `board`: it lists every strategy on the
/// board with its total, and nothing else, in ranking order.
pub open spec fn is_ranking(
    board: Map<StrategyEnum, int>,
    ranking: Seq<(Score, StrategyEnum)>,
) -> bool {
    &&& is_ranked(ranking)
    &&& forall|a: int|
        0 <= a < ranking.len() ==> board.contains_key((#[trigger] ranking[a]).1)
            && board[ranking[a].1] == ranking[a].0
    &&& forall|player: StrategyEnum| #[trigger]
        board.contains_key(player) ==> exists|a: int|
            0 <= a < ranking.len() && (#[trigger] ranking[a]).1 == player
}

/// The running totals of a tournament, by strategy.
#[derive(Debug, Clone)]
pub struct Scoreboard(HashMap<u8, Score>);

impl View for Scoreboard {
    type V = Map<StrategyEnum, int>;

    /// The total of every strategy that has had an award.
    closed spec fn view(&self) -> Map<StrategyEnum, int> {
        Map::new(
            |player: StrategyEnum| self.0@.contains_key(player.position() as u8),
            |player: StrategyEnum| self.0@[player.position() as u8] as int,
        )
    }
}

impl Default for Scoreboard {
    /// The empty board.
    fn default() -> (board: Self)
        ensures
            board@ == Map::<StrategyEnum, int>::empty(),
    {
        Scoreboard(HashMap::new())
    }
}

impl Scoreboard {
    /// The total of `player`, if it has had an award.
    pub fn get(&self, player: StrategyEnum) -> (total: Option<Score>)
        ensures
            match total {
                Some(points) => self@.contains_key(player) && self@[player] == points,
                None => !self@.contains_key(player),
            },
    {
        let key = player.index();
        match self.0.get(&key) {
            Some(points) => Some(*points),
            None => None,
        }
    }

    /// Adds `score` to the total of `player`, which starts at zero.
    pub fn add_score(&mut self, player: StrategyEnum, score: Score)
        requires
            i32::MIN <= points_of(old(self)@, player) + score <= i32::MAX,
        ensures
            final(self)@ == award(old(self)@, player, score as int),
    {
        let key = player.index();
        let total = match self.0.get(&key) {
            Some(points) => *points + score,
            None => score,
        };
        self.0.insert(key, total);
    }

    /// The ranking: every strategy on the board with its total, the highest
    /// total first, equal totals in roster order.
    pub fn sorted_scores(&self) -> (ranking: Vec<(Score, StrategyEnum)>)
        ensures
            is_ranking(self@, ranking@),
    {
        let players = get_strategies();
        let mut ranking: Vec<(Score, StrategyEnum)> = Vec::new();
        let mut k: usize = 0;
        while k < players.len()
            invariant
                players@ == roster(),
                k <= 5,
                is_ranked(ranking@),
                forall|a: int|
                    0 <= a < ranking.len() ==> (#[trigger] ranking[a]).1.position() < k
                        && self@.contains_key(ranking[a].1) && self@[ranking[a].1]
                        == ranking[a].0,
                forall|player: StrategyEnum|
                    player.position() < k && #[trigger] self@.contains_key(player) ==> exists|
                        a: int,
                    |
                        0 <= a < ranking.len() && (#[trigger] ranking[a]).1 == player,
            decreases 5 - k,
        {
            let player = players[k];
            match self.get(player) {
                Some(total) => {
                    let mut at: usize = 0;
                    while at < ranking.len() && ranking[at].0 >= total
                        invariant
                            at <= ranking.len(),
                            forall|a: int| 0 <= a < at ==> (#[trigger] ranking[a]).0 >= total,
                        decreases ranking.len() - at,
                    {
                        at += 1;
                    }
                    let ghost before = ranking@;
                    ranking.insert(at, (total, player));
                    proof {
                        lemma_entry_inserted(before, at as int, (total, player));
                        assert forall|other: StrategyEnum|
                            other.position() < k + 1 && #[trigger] self@.contains_key(
                                other,
                            ) implies exists|a: int|
                            0 <= a < ranking.len() && (#[trigger] ranking[a]).1 == other by {
                            if other.position() < k {
                                let a = choose|a: int|
                                    0 <= a < before.len() && (#[trigger] before[a]).1 == other;
                                let moved = if a < at {
                                    a
                                } else {
                                    a + 1
                                };
                                assert(ranking[moved] == before[a]);
                            } else {
                                assert(ranking[at as int].1 == other);
                            }
                        }
                    }
                },
                None => {},
            }
            k += 1;
        }
        ranking
    }
}

/// Putting a new entry behind all that rank before it and ahead of all it ranks
/// before keeps a ranking in order.
proof fn lemma_entry_inserted(
    before: Seq<(Score, StrategyEnum)>,
    at: int,
    entry: (Score, StrategyEnum),
)
    requires
        is_ranked(before),
        0 <= at <= before.len(),
        forall|a: int| 0 <= a < at ==> (#[trigger] before[a]).0 >= entry.0,
        forall|a: int| 0 <= a < before.len() ==> (#[trigger] before[a]).1.position() < entry.1.position(),
        at < before.len() ==> before[at].0 < entry.0,
    ensures
        is_ranked(before.insert(at, entry)),
        before.insert(at, entry).len() == before.len() + 1,
        before.insert(at, entry)[at] == entry,
        forall|a: int| 0 <= a < at ==> before.insert(at, entry)[a] == before[a],
        forall|a: int| at <= a < before.len() ==> before.insert(at, entry)[a + 1] == before[a],
{
    let after = before.insert(at, entry);
    assert forall|a: int, b: int| 0 <= a < b < after.len() implies ranks_before(
        #[trigger] after[a],
        #[trigger] after[b],
    ) by {
        let a_before = if a < at {
            a
        } else {
            a - 1
        };
        let b_before = if b < at {
            b
        } else {
            b - 1
        };
        if a != at && b != at {
            assert(ranks_before(before[a_before], before[b_before]));
        } else if a == at && at < b_before {
            assert(ranks_before(before[at], before[b_before]));
        }
    }
}

/// What is left of a ranking in order without its first entry is in order.
proof fn lemma_rest_is_ranked(ranking: Seq<(Score, StrategyEnum)>)
    requires
        is_ranked(ranking),
        ranking.len() > 0,
    ensures
        is_ranked(ranking.drop_first()),
{
    let rest = ranking.drop_first();
    assert forall|a: int, b: int| 0 <= a < b < rest.len() implies ranks_before(
        #[trigger] rest[a],
        #[trigger] rest[b],
    ) by {
        assert(ranks_before(ranking[a + 1], ranking[b + 1]));
    }
}

/// Of two rankings in order that hold the same entries, each entry behind the
/// first of the one stands behind the first of the other.
proof fn lemma_rest_is_shared(
    first: Seq<(Score, StrategyEnum)>,
    second: Seq<(Score, StrategyEnum)>,
    entry: (Score, StrategyEnum),
)
    requires
        is_ranked(first),
        first.len() > 0,
        second.len() > 0,
        first[0] == second[0],
        first.drop_first().contains(entry),
        second.contains(entry),
    ensures
        second.drop_first().contains(entry),
{
    let a = choose|a: int| 0 <= a < first.drop_first().len() && first.drop_first()[a] == entry;
    assert(first[a + 1] == entry);
    assert(ranks_before(first[0], first[a + 1]));
    let b = choose|b: int| 0 <= b < second.len() && second[b] == entry;
    assert(b > 0);
    assert(second.drop_first()[b - 1] == entry);
}

/// Two rankings in order that hold the same entries are the same.
pub proof fn lemma_ranked_entries_fix_order(
    first: Seq<(Score, StrategyEnum)>,
    second: Seq<(Score, StrategyEnum)>,
)
    requires
        is_ranked(first),
        is_ranked(second),
        forall|entry: (Score, StrategyEnum)| first.contains(entry) <==> second.contains(entry),
    ensures
        first == second,
    decreases first.len(),
{
    if first.len() == 0 {
        if second.len() > 0 {
            assert(second.contains(second[0]));
        }
        assert(first =~= second);
    } else {
        assert(first.contains(first[0]));
        assert(second.contains(first[0]));
        let k = choose|b: int| 0 <= b < second.len() && second[b] == first[0];
        assert(second.contains(second[0]));
        let m = choose|a: int| 0 <= a < first.len() && first[a] == second[0];
        if k > 0 && m > 0 {
            assert(ranks_before(second[0], second[k]));
            assert(ranks_before(first[0], first[m]));
        }
        assert(first[0] == second[0]);
        let first_rest = first.drop_first();
        let second_rest = second.drop_first();
        lemma_rest_is_ranked(first);
        lemma_rest_is_ranked(second);
        assert forall|entry: (Score, StrategyEnum)|
            first_rest.contains(entry) <==> second_rest.contains(entry) by {
            if first_rest.contains(entry) {
                let a = choose|a: int| 0 <= a < first_rest.len() && first_rest[a] == entry;
                assert(first[a + 1] == entry);
                assert(first.contains(entry));
                lemma_rest_is_shared(first, second, entry);
            }
            if second_rest.contains(entry) {
                let b = choose|b: int| 0 <= b < second_rest.len() && second_rest[b] == entry;
                assert(second[b + 1] == entry);
                assert(second.contains(entry));
                lemma_rest_is_shared(second, first, entry);
            }
        }
        lemma_ranked_entries_fix_order(first_rest, second_rest);
        assert(first =~= seq![first[0]] + first_rest);
        assert(second =~= seq![second[0]] + second_rest);
    }
}

/// A board has one ranking only: whenever the ranking of an unchanged board is
/// asked for, the same entries come in the same order.
pub proof fn lemma_ranking_is_unique(
    board: Map<StrategyEnum, int>,
    first: Seq<(Score, StrategyEnum)>,
    second: Seq<(Score, StrategyEnum)>,
)
    requires
        is_ranking(board, first),
        is_ranking(board, second),
    ensures
        first == second,
{
    assert forall|entry: (Score, StrategyEnum)| first.contains(entry) implies second.contains(
        entry,
    ) by {
        lemma_ranking_holds_entry(board, first, second, entry);
    }
    assert forall|entry: (Score, StrategyEnum)| second.contains(entry) implies first.contains(
        entry,
    ) by {
        lemma_ranking_holds_entry(board, second, first, entry);
    }
    lemma_ranked_entries_fix_order(first, second);
}

/// An entry of one ranking of a board is an entry of every ranking of it.
proof fn lemma_ranking_holds_entry(
    board: Map<StrategyEnum, int>,
    first: Seq<(Score, StrategyEnum)>,
    second: Seq<(Score, StrategyEnum)>,
    entry: (Score, StrategyEnum),
)
    requires
        is_ranking(board, first),
        is_ranking(board, second),
        first.contains(entry),
    ensures
        second.contains(entry),
{
    let a = choose|a: int| 0 <= a < first.len() && first[a] == entry;
    assert(board.contains_key(first[a].1));
    let b = choose|b: int| 0 <= b < second.len() && (#[trigger] second[b]).1 == entry.1;
    assert(second[b] == entry);
}

/// An award raises the sum of all totals by exactly the points awarded.
pub proof fn lemma_award_adds_to_total(
    board: Map<StrategyEnum, int>,
    player: StrategyEnum,
    points: int,
)
    ensures
        board_total(award(board, player, points)) == board_total(board) + points,
        points_of(award(board, player, points), player) == points_of(board, player) + points,
        forall|other: StrategyEnum|
            other != player ==> points_of(award(board, player, points), other) == points_of(
                board,
                other,
            ),
{
}

} // verus!
