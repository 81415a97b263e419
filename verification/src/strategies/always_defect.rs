use crate::strategies::model::StrategyState;
use crate::strategies::{Action, Strategy};
use vstd::prelude::*;

verus! {

/// No matter what the other player does, this strategy will always defect.
#[derive(Debug)]
pub struct AlwaysDefect {}

impl Strategy for AlwaysDefect {
    open spec fn state(&self) -> StrategyState {
        StrategyState::AlwaysDefect
    }

    fn put(&mut self, _action: &Action) {
    }

    fn get(&self) -> (action: Action) {
        Action::Defect
    }

    fn reset(&mut self) {
    }
}

impl AlwaysDefect {
    pub fn new() -> (strategy: Self)
        ensures
            strategy.state() == StrategyState::AlwaysDefect,
    {
        Self {  }
    }
}

} // verus!
