use crate::strategies::model::StrategyState;
use crate::strategies::{Action, Strategy};
use vstd::prelude::*;

verus! {

/// When the opponent defects twice in a row, defect until the opponent
/// cooperates.
#[derive(Debug)]
pub struct TitFor2Tats {
    patience: i32,
}

impl Strategy for TitFor2Tats {
    open spec fn state(&self) -> StrategyState {
        StrategyState::TitFor2Tats { patience: self.patience() }
    }

    fn put(&mut self, action: &Action) {
        match action {
            Action::Defect => self.patience -= 1,
            Action::Cooperate => self.patience = 2,
        }
    }

    fn get(&self) -> (action: Action) {
        if self.patience <= 0 {
            Action::Defect
        } else {
            Action::Cooperate
        }
    }

    fn reset(&mut self) {
        self.patience = 2;
    }
}

impl TitFor2Tats {
    /// The patience left: two at the start and after every cooperation, one less
    /// with every defection observed. At zero or below the strategy defects.
    pub closed spec fn patience(&self) -> int {
        self.patience as int
    }

    pub fn new() -> (strategy: Self)
        ensures
            strategy.state() == (StrategyState::TitFor2Tats { patience: 2 }),
    {
        TitFor2Tats { patience: 2 }
    }
}

} // verus!
