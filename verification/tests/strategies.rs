use gamett::strategies::always_cooperate::AlwaysCooperate;
use gamett::strategies::always_defect::AlwaysDefect;
use gamett::strategies::enums::{get_strategies, StrategyEnum};
use gamett::strategies::holds_grudge::HoldsGrudge;
use gamett::strategies::tit_for_tat::TitForTat;
use gamett::strategies::tit_for_two_tats::TitFor2Tats;
use gamett::strategies::{get_strategy, Action, Strategy};

#[test]
fn test_get_strategies_lists_the_roster_in_order() {
    assert_eq!(
        get_strategies(),
        vec![
            StrategyEnum::AlwaysCooperate,
            StrategyEnum::HoldsGrudge,
            StrategyEnum::TitForTat,
            StrategyEnum::TitFor2Tats,
            StrategyEnum::AlwaysDefect,
        ]
    );
}

#[test]
fn test_index_is_the_place_on_the_roster() {
    let roster = get_strategies();
    for (place, strategy) in roster.iter().enumerate() {
        assert_eq!(strategy.index() as usize, place);
    }
}

#[test]
fn test_first_decisions() {
    assert_eq!(get_strategy(StrategyEnum::AlwaysCooperate).get(), Action::Cooperate);
    assert_eq!(get_strategy(StrategyEnum::HoldsGrudge).get(), Action::Cooperate);
    assert_eq!(get_strategy(StrategyEnum::TitForTat).get(), Action::Cooperate);
    assert_eq!(get_strategy(StrategyEnum::TitFor2Tats).get(), Action::Cooperate);
    assert_eq!(get_strategy(StrategyEnum::AlwaysDefect).get(), Action::Defect);
}

#[test]
fn test_always_cooperate_never_changes() {
    let mut strategy = AlwaysCooperate::new();
    assert_eq!(strategy.get(), Action::Cooperate);
    strategy.put(&Action::Defect);
    strategy.put(&Action::Defect);
    assert_eq!(strategy.get(), Action::Cooperate);
    strategy.reset();
    assert_eq!(strategy.get(), Action::Cooperate);
}

#[test]
fn test_always_defect_never_changes() {
    let mut strategy = AlwaysDefect::new();
    assert_eq!(strategy.get(), Action::Defect);
    strategy.put(&Action::Cooperate);
    strategy.put(&Action::Cooperate);
    assert_eq!(strategy.get(), Action::Defect);
    strategy.reset();
    assert_eq!(strategy.get(), Action::Defect);
}

#[test]
fn test_holds_grudge_cooperates_until_provoked() {
    let mut strategy = HoldsGrudge::new();
    strategy.put(&Action::Cooperate);
    strategy.put(&Action::Cooperate);
    assert_eq!(strategy.get(), Action::Cooperate);
    strategy.put(&Action::Defect);
    assert_eq!(strategy.get(), Action::Defect);
}

#[test]
fn test_holds_grudge_never_forgives() {
    let mut strategy = HoldsGrudge::new();
    strategy.put(&Action::Defect);
    for _ in 0..100 {
        strategy.put(&Action::Cooperate);
        assert_eq!(strategy.get(), Action::Defect);
    }
}

#[test]
fn test_holds_grudge_reset_clears_the_grudge() {
    let mut strategy = HoldsGrudge::new();
    strategy.put(&Action::Defect);
    assert_eq!(strategy.get(), Action::Defect);
    strategy.reset();
    assert_eq!(strategy.get(), Action::Cooperate);
}

#[test]
fn test_tit_for_tat_answers_the_last_move() {
    let mut strategy = TitForTat::new();
    assert!(!strategy.retaliate);
    strategy.put(&Action::Defect);
    assert_eq!(strategy.get(), Action::Defect);
    strategy.put(&Action::Cooperate);
    assert_eq!(strategy.get(), Action::Cooperate);
    strategy.put(&Action::Defect);
    strategy.put(&Action::Defect);
    assert_eq!(strategy.get(), Action::Defect);
    strategy.reset();
    assert_eq!(strategy.get(), Action::Cooperate);
}

#[test]
fn test_tit_for_two_tats_needs_two_defections_in_a_row() {
    let mut strategy = TitFor2Tats::new();
    strategy.put(&Action::Defect);
    assert_eq!(strategy.get(), Action::Cooperate);
    strategy.put(&Action::Cooperate);
    strategy.put(&Action::Defect);
    assert_eq!(strategy.get(), Action::Cooperate);
    strategy.put(&Action::Defect);
    assert_eq!(strategy.get(), Action::Defect);
    strategy.put(&Action::Defect);
    assert_eq!(strategy.get(), Action::Defect);
    strategy.put(&Action::Cooperate);
    assert_eq!(strategy.get(), Action::Cooperate);
}

#[test]
fn test_tit_for_two_tats_reset_restores_patience() {
    let mut strategy = TitFor2Tats::new();
    strategy.put(&Action::Defect);
    strategy.put(&Action::Defect);
    strategy.put(&Action::Defect);
    assert_eq!(strategy.get(), Action::Defect);
    strategy.reset();
    assert_eq!(strategy.get(), Action::Cooperate);
    strategy.put(&Action::Defect);
    assert_eq!(strategy.get(), Action::Cooperate);
}

#[test]
fn test_deciding_does_not_use_up_state() {
    for identity in get_strategies() {
        let mut strategy = get_strategy(identity);
        strategy.put(&Action::Defect);
        let first = strategy.get();
        let second = strategy.get();
        assert_eq!(first, second);
    }
}

#[test]
fn test_reset_makes_any_strategy_as_new() {
    let history = [
        Action::Defect,
        Action::Defect,
        Action::Cooperate,
        Action::Defect,
        Action::Defect,
        Action::Defect,
    ];
    let probe = [Action::Defect, Action::Defect, Action::Cooperate, Action::Defect];
    for identity in get_strategies() {
        let mut used = get_strategy(identity);
        for action in history.iter() {
            used.put(action);
        }
        used.reset();
        let mut fresh = get_strategy(identity);
        assert_eq!(used.get(), fresh.get());
        for action in probe.iter() {
            used.put(action);
            fresh.put(action);
            assert_eq!(used.get(), fresh.get());
        }
    }
}
