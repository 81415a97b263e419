use crate::strategies::model::StrategyState;
use crate::strategies::{Action, Strategy};
use vstd::prelude::*;

verus! {

/// Answers each move of the opponent in kind, one round later.
#[derive(Debug)]
pub struct TitForTat {
    pub retaliate: bool,
}

impl Strategy for TitForTat {
    open spec fn state(&self) -> StrategyState {
        StrategyState::TitForTat { retaliate: self.retaliate }
    }

    fn put(&mut self, action: &Action) {
        match action {
            Action::Defect => self.retaliate = true,
            Action::Cooperate => self.retaliate = false,
        }
    }

    fn get(&self) -> (action: Action) {
        if self.retaliate {
            Action::Defect
        } else {
            Action::Cooperate
        }
    }

    fn reset(&mut self) {
        self.retaliate = false;
    }
}

impl TitForTat {
    pub fn new() -> (strategy: Self)
        ensures
            strategy.state() == (StrategyState::TitForTat { retaliate: false }),
    {
        TitForTat { retaliate: false }
    }
}

} // verus!
