use crate::strategies::always_cooperate::AlwaysCooperate;
use crate::strategies::always_defect::AlwaysDefect;
use crate::strategies::enums::StrategyEnum;
use crate::strategies::holds_grudge::HoldsGrudge;
use crate::strategies::model::StrategyState;
use crate::strategies::tit_for_tat::TitForTat;
use crate::strategies::tit_for_two_tats::TitFor2Tats;
use vstd::prelude::*;

pub mod always_cooperate;
pub mod always_defect;
pub mod enums;
pub mod holds_grudge;
pub mod model;
pub mod tit_for_tat;
pub mod tit_for_two_tats;

verus! {

/// One round's move.
#[derive(Debug, Clone, Copy, PartialEq, Eq, Structural)]
pub enum Action {
    Cooperate,
    Defect,
}

/// What every strategy can do: observe, decide, and start over.
pub trait Strategy {
    /// The state of this instance in the model of its strategy.
    spec fn state(&self) -> StrategyState;

    /// Tells the strategy which move the opponent made in the round just played.
    fn put(&mut self, action: &Action)
        requires
            old(self).state().observed(*action).fits(),
        ensures
            final(self).state() == old(self).state().observed(*action),
    ;

    /// The move for this round, from what has been observed so far.
    fn get(&self) -> (action: Action)
        ensures
            action == self.state().decision(),
    ;

    /// Returns to the state in which the strategy starts a match.
    fn reset(&mut self)
        ensures
            final(self).state() == old(self).state().reset(),
    ;
}

/// An instance of any one of the strategies on the roster.
#[derive(Debug)]
pub enum AnyStrategy {
    AlwaysCooperate(AlwaysCooperate),
    HoldsGrudge(HoldsGrudge),
    TitForTat(TitForTat),
    TitFor2Tats(TitFor2Tats),
    AlwaysDefect(AlwaysDefect),
}

impl Strategy for AnyStrategy {
    open spec fn state(&self) -> StrategyState {
        match self {
            AnyStrategy::AlwaysCooperate(s) => s.state(),
            AnyStrategy::HoldsGrudge(s) => s.state(),
            AnyStrategy::TitForTat(s) => s.state(),
            AnyStrategy::TitFor2Tats(s) => s.state(),
            AnyStrategy::AlwaysDefect(s) => s.state(),
        }
    }

    fn put(&mut self, action: &Action) {
        match self {
            AnyStrategy::AlwaysCooperate(s) => s.put(action),
            AnyStrategy::HoldsGrudge(s) => s.put(action),
            AnyStrategy::TitForTat(s) => s.put(action),
            AnyStrategy::TitFor2Tats(s) => s.put(action),
            AnyStrategy::AlwaysDefect(s) => s.put(action),
        }
    }

    fn get(&self) -> (action: Action) {
        match self {
            AnyStrategy::AlwaysCooperate(s) => s.get(),
            AnyStrategy::HoldsGrudge(s) => s.get(),
            AnyStrategy::TitForTat(s) => s.get(),
            AnyStrategy::TitFor2Tats(s) => s.get(),
            AnyStrategy::AlwaysDefect(s) => s.get(),
        }
    }

    fn reset(&mut self) {
        match self {
            AnyStrategy::AlwaysCooperate(s) => s.reset(),
            AnyStrategy::HoldsGrudge(s) => s.reset(),
            AnyStrategy::TitForTat(s) => s.reset(),
            AnyStrategy::TitFor2Tats(s) => s.reset(),
            AnyStrategy::AlwaysDefect(s) => s.reset(),
        }
    }
}

/// Makes a fresh instance of the strategy with the given identity.
pub fn get_strategy(strategy_enum: StrategyEnum) -> (strategy: AnyStrategy)
    ensures
        strategy.state() == StrategyState::initial(strategy_enum),
{
    match strategy_enum {
        StrategyEnum::AlwaysCooperate => AnyStrategy::AlwaysCooperate(AlwaysCooperate::new()),
        StrategyEnum::HoldsGrudge => AnyStrategy::HoldsGrudge(HoldsGrudge::new()),
        StrategyEnum::TitForTat => AnyStrategy::TitForTat(TitForTat::new()),
        StrategyEnum::TitFor2Tats => AnyStrategy::TitFor2Tats(TitFor2Tats::new()),
        StrategyEnum::AlwaysDefect => AnyStrategy::AlwaysDefect(AlwaysDefect::new()),
    }
}

} // verus!
