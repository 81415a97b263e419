use gamett::battle::{battle, run_battle, score, Match, MAX_ROUNDS};
use gamett::cancel::{check_running, running_status, Cancelled};
use gamett::strategies::enums::{get_strategies, StrategyEnum};
use gamett::strategies::Action;
use std::sync::atomic::{AtomicBool, Ordering};
use std::sync::Arc;

/// TitFor2Tats should learn to defect after the second iteration, and score one
/// point in the third iteration but not before then.
#[test]
fn test_battle_tit_for_2_tats_learns_slowly() {
    for (iterations, i_expected, j_expected) in [(1, 0, 5), (2, 0, 10), (3, 1, 11)] {
        assert_eq!(
            battle(None, StrategyEnum::TitFor2Tats, StrategyEnum::AlwaysDefect, iterations, false),
            (i_expected, j_expected)
        );
    }
}

#[test]
fn test_battle_tit_for_2_tats_learns_slowly_one_iteration() {
    assert_eq!(
        battle(None, StrategyEnum::TitFor2Tats, StrategyEnum::AlwaysDefect, 1, false),
        (0, 5)
    );
}

#[test]
fn test_battle_tit_for_2_tats_learns_slowly_two_iterations() {
    assert_eq!(
        battle(None, StrategyEnum::TitFor2Tats, StrategyEnum::AlwaysDefect, 2, false),
        (0, 10)
    );
}

#[test]
fn test_battle_tit_for_2_tats_learns_slowly_three_iterations() {
    assert_eq!(
        battle(None, StrategyEnum::TitFor2Tats, StrategyEnum::AlwaysDefect, 3, false),
        (1, 11)
    );
}

/// TitForTat and TitFor2Tats start by cooperating and go on doing so until the
/// opponent defects.
#[test]
fn test_two_positive_strategies_always_cooperate() {
    for (iterations, i, j) in [(1, 3, 3), (10, 30, 30)] {
        let expected = (i, j);
        let results = battle(
            None,
            StrategyEnum::TitForTat,
            StrategyEnum::TitFor2Tats,
            iterations,
            false,
        );
        assert_eq!(results, expected);
    }
}

#[test]
fn test_two_positive_strategies_always_cooperate_one_iteration() {
    let results = battle(None, StrategyEnum::TitForTat, StrategyEnum::TitFor2Tats, 1, false);
    assert_eq!(results, (3, 3));
}

#[test]
fn test_two_positive_strategies_always_cooperate_ten_iterations() {
    let results = battle(None, StrategyEnum::TitForTat, StrategyEnum::TitFor2Tats, 10, false);
    assert_eq!(results, (30, 30));
}

#[test]
fn test_battle_defector_against_grudge_holder() {
    assert_eq!(
        battle(None, StrategyEnum::AlwaysDefect, StrategyEnum::HoldsGrudge, 3, false),
        (7, 2)
    );
}

#[test]
fn test_battle_tit_for_tat_against_defector() {
    assert_eq!(
        battle(None, StrategyEnum::TitForTat, StrategyEnum::AlwaysDefect, 3, false),
        (2, 7)
    );
}

#[test]
fn test_battle_cooperator_against_defector() {
    assert_eq!(
        battle(None, StrategyEnum::AlwaysCooperate, StrategyEnum::AlwaysDefect, 200, false),
        (0, 1000)
    );
}

#[test]
fn test_battle_defector_against_itself() {
    assert_eq!(
        battle(None, StrategyEnum::AlwaysDefect, StrategyEnum::AlwaysDefect, 7, false),
        (7, 7)
    );
}

#[test]
fn test_battle_zero_rounds_gives_no_points() {
    for i in get_strategies() {
        for j in get_strategies() {
            assert_eq!(battle(None, i, j, 0, false), (0, 0));
            assert_eq!(battle(None, i, j, 0, true), (0, 0));
            let flag = Arc::new(AtomicBool::new(true));
            assert_eq!(battle(Some(flag), i, j, 0, false), (0, 0));
        }
    }
}

#[test]
fn test_battle_is_deterministic() {
    for i in get_strategies() {
        for j in get_strategies() {
            let first = battle(None, i, j, 25, false);
            let second = battle(None, i, j, 25, false);
            assert_eq!(first, second);
        }
    }
}

#[test]
fn test_battle_ignores_verbose() {
    for i in get_strategies() {
        for j in get_strategies() {
            assert_eq!(battle(None, i, j, 12, true), battle(None, i, j, 12, false));
        }
    }
}

#[test]
fn test_battle_points_lie_between_two_and_six_a_round() {
    for i in get_strategies() {
        for j in get_strategies() {
            let (a, b) = battle(None, i, j, 40, false);
            assert!(a >= 0 && b >= 0);
            assert!(a + b >= 2 * 40);
            assert!(a + b <= 6 * 40);
        }
    }
}

#[test]
fn test_battle_runs_to_the_end_while_running() {
    let flag = Arc::new(AtomicBool::new(true));
    assert_eq!(
        battle(Some(flag), StrategyEnum::TitFor2Tats, StrategyEnum::AlwaysDefect, 3, false),
        (1, 11)
    );
}

#[test]
fn test_battle_stops_at_once_when_cancelled() {
    let flag = Arc::new(AtomicBool::new(false));
    assert_eq!(
        battle(Some(flag), StrategyEnum::AlwaysDefect, StrategyEnum::AlwaysCooperate, 50, false),
        (0, 0)
    );
}

#[test]
fn test_run_battle_reports_the_rounds_played() {
    let none = None;
    assert_eq!(
        run_battle(&none, StrategyEnum::AlwaysDefect, StrategyEnum::AlwaysCooperate, 9),
        (45, 0, 9)
    );
    let cancelled = Some(Arc::new(AtomicBool::new(false)));
    assert_eq!(
        run_battle(&cancelled, StrategyEnum::AlwaysDefect, StrategyEnum::AlwaysCooperate, 9),
        (0, 0, 0)
    );
}

#[test]
fn test_round_limit_is_the_most_that_fits_a_score() {
    assert_eq!(MAX_ROUNDS, 429_496_729);
    assert!(5 * MAX_ROUNDS <= i32::MAX as i64);
    assert!(5 * (MAX_ROUNDS + 1) > i32::MAX as i64);
}

#[test]
fn test_score_table() {
    assert_eq!(score(Action::Cooperate, Action::Cooperate), (3, 3));
    assert_eq!(score(Action::Defect, Action::Defect), (1, 1));
    assert_eq!(score(Action::Cooperate, Action::Defect), (0, 5));
    assert_eq!(score(Action::Defect, Action::Cooperate), (5, 0));
}

#[test]
fn test_score_sums_are_two_five_or_six() {
    for action in [Action::Cooperate, Action::Defect] {
        for reaction in [Action::Cooperate, Action::Defect] {
            let (a, b) = score(action, reaction);
            assert!(matches!(a + b, 2 | 5 | 6));
        }
    }
}

#[test]
fn test_match_round_by_round() {
    let mut game = Match::new(StrategyEnum::TitFor2Tats, StrategyEnum::AlwaysDefect);
    assert_eq!(game.rounds(), 0);
    assert_eq!(game.scores(), (0, 0));
    game.play_round();
    assert_eq!(game.scores(), (0, 5));
    game.play_round();
    assert_eq!(game.scores(), (0, 10));
    game.play_round();
    assert_eq!(game.scores(), (1, 11));
    assert_eq!(game.rounds(), 3);
}

#[test]
fn test_match_reset_starts_over() {
    let mut game = Match::new(StrategyEnum::HoldsGrudge, StrategyEnum::AlwaysDefect);
    for _ in 0..5 {
        game.play_round();
    }
    assert_eq!(game.scores(), (4, 9));
    game.reset();
    assert_eq!(game.rounds(), 0);
    assert_eq!(game.scores(), (0, 0));
    for _ in 0..5 {
        game.play_round();
    }
    assert_eq!(game.scores(), (4, 9));
    assert_eq!(
        game.scores(),
        battle(None, StrategyEnum::HoldsGrudge, StrategyEnum::AlwaysDefect, 5, false)
    );
}

#[test]
fn test_consecutive_battles_do_not_share_history() {
    let provoked = battle(None, StrategyEnum::HoldsGrudge, StrategyEnum::AlwaysDefect, 10, false);
    assert_eq!(provoked, (9, 14));
    let peaceful = battle(None, StrategyEnum::HoldsGrudge, StrategyEnum::AlwaysCooperate, 10, false);
    assert_eq!(peaceful, (30, 30));
}

#[test]
fn test_running_status() {
    assert_eq!(running_status(true), Ok(()));
    assert_eq!(running_status(false), Err(Cancelled));
}

#[test]
fn test_check_running_follows_the_flag() {
    let flag = Arc::new(AtomicBool::new(true));
    assert_eq!(check_running(&flag), Ok(()));
    flag.store(false, Ordering::SeqCst);
    assert_eq!(check_running(&flag), Err(Cancelled));
}
