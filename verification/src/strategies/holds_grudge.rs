use crate::strategies::model::StrategyState;
use crate::strategies::{Action, Strategy};
use vstd::prelude::*;

verus! {

/// When the opponent cooperates, cooperate. When the opponent defects, forever
/// retaliate.
#[derive(Debug)]
pub struct HoldsGrudge {
    grudge: bool,
}

impl Strategy for HoldsGrudge {
    open spec fn state(&self) -> StrategyState {
        StrategyState::HoldsGrudge { grudge: self.holds_grudge() }
    }

    fn put(&mut self, action: &Action) {
        match action {
            Action::Defect => self.grudge = true,
            _ => {},
        }
    }

    fn get(&self) -> (action: Action) {
        if self.grudge {
            Action::Defect
        } else {
            Action::Cooperate
        }
    }

    fn reset(&mut self) {
        self.grudge = false;
    }
}

impl HoldsGrudge {
    /// Whether a defection has been observed since the strategy started.
    pub closed spec fn holds_grudge(&self) -> bool {
        self.grudge
    }

    pub fn new() -> (strategy: Self)
        ensures
            strategy.state() == (StrategyState::HoldsGrudge { grudge: false }),
    {
        HoldsGrudge { grudge: false }
    }
}

} // verus!
