use crate::strategies::model::StrategyState;
use crate::strategies::{Action, Strategy};
use vstd::prelude::*;

verus! {

/// No matter what the other player does, this strategy will always cooperate.
#[derive(Debug)]
pub struct AlwaysCooperate {}

impl Strategy for AlwaysCooperate {
    open spec fn state(&self) -> StrategyState {
        StrategyState::AlwaysCooperate
    }

    fn put(&mut self, _action: &Action) {
    }

    fn get(&self) -> (action: Action) {
        Action::Cooperate
    }

    fn reset(&mut self) {
    }
}

impl AlwaysCooperate {
    pub fn new() -> (strategy: Self)
        ensures
            strategy.state() == StrategyState::AlwaysCooperate,
    {
        Self {  }
    }
}

} // verus!
