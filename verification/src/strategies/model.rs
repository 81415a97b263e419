use crate::strategies::enums::StrategyEnum;
use crate::strategies::Action;
use vstd::prelude::*;

verus! {

/// What a strategy remembers between rounds, as a mathematical value.
///
/// Every executable strategy is a refinement of this state machine: what it
/// decides and how it reacts to an observation are given by `decision` and
/// `observed` on its state.
pub ghost enum StrategyState {
    AlwaysCooperate,
    HoldsGrudge { grudge: bool },
    TitForTat { retaliate: bool },
    TitFor2Tats { patience: int },
    AlwaysDefect,
}

impl StrategyState {
    /// The state in which a strategy of the given identity starts a match.
    pub open spec fn initial(identity: StrategyEnum) -> StrategyState {
        match identity {
            StrategyEnum::AlwaysCooperate => StrategyState::AlwaysCooperate,
            StrategyEnum::HoldsGrudge => StrategyState::HoldsGrudge { grudge: false },
            StrategyEnum::TitForTat => StrategyState::TitForTat { retaliate: false },
            StrategyEnum::TitFor2Tats => StrategyState::TitFor2Tats { patience: 2 },
            StrategyEnum::AlwaysDefect => StrategyState::AlwaysDefect,
        }
    }

    /// The identity of the strategy that is in this state.
    pub open spec fn identity(self) -> StrategyEnum {
        match self {
            StrategyState::AlwaysCooperate => StrategyEnum::AlwaysCooperate,
            StrategyState::HoldsGrudge { .. } => StrategyEnum::HoldsGrudge,
            StrategyState::TitForTat { .. } => StrategyEnum::TitForTat,
            StrategyState::TitFor2Tats { .. } => StrategyEnum::TitFor2Tats,
            StrategyState::AlwaysDefect => StrategyEnum::AlwaysDefect,
        }
    }

    /// The move made in this state. Deciding does not change the state.
    pub open spec fn decision(self) -> Action {
        match self {
            StrategyState::AlwaysCooperate => Action::Cooperate,
            StrategyState::HoldsGrudge { grudge } => if grudge {
                Action::Defect
            } else {
                Action::Cooperate
            },
            StrategyState::TitForTat { retaliate } => if retaliate {
                Action::Defect
            } else {
                Action::Cooperate
            },
            StrategyState::TitFor2Tats { patience } => if patience <= 0 {
                Action::Defect
            } else {
                Action::Cooperate
            },
            StrategyState::AlwaysDefect => Action::Defect,
        }
    }

    /// The state after the opponent's latest move has been observed.
    pub open spec fn observed(self, action: Action) -> StrategyState {
        match self {
            StrategyState::AlwaysCooperate => self,
            StrategyState::HoldsGrudge { grudge } => StrategyState::HoldsGrudge {
                grudge: grudge || action == Action::Defect,
            },
            StrategyState::TitForTat { .. } => StrategyState::TitForTat {
                retaliate: action == Action::Defect,
            },
            StrategyState::TitFor2Tats { patience } => StrategyState::TitFor2Tats {
                patience: if action == Action::Defect {
                    patience - 1
                } else {
                    2
                },
            },
            StrategyState::AlwaysDefect => self,
        }
    }

    /// The state after a whole history of opponent moves, oldest first.
    pub open spec fn observed_all(self, history: Seq<Action>) -> StrategyState
        decreases history.len(),
    {
        if history.len() == 0 {
            self
        } else {
            self.observed_all(history.drop_last()).observed(history.last())
        }
    }

    /// The state after starting over: the initial state of the same strategy.
    pub open spec fn reset(self) -> StrategyState {
        StrategyState::initial(self.identity())
    }

    /// Whether an executable strategy can hold this state: the patience counter
    /// is kept in an `i32`.
    pub open spec fn fits(self) -> bool {
        self matches StrategyState::TitFor2Tats { patience } ==> i32::MIN <= patience <= i32::MAX
    }
}

/// A grudge is permanent: once a grudge holder has observed a defection, it
/// defects after every later history, whatever the opponent does.
pub proof fn lemma_grudge_is_permanent(state: StrategyState, later: Seq<Action>)
    requires
        state is HoldsGrudge,
    ensures
        state.observed(Action::Defect).observed_all(later).decision() == Action::Defect,
        state.observed(Action::Defect).observed_all(later) == (StrategyState::HoldsGrudge {
            grudge: true,
        }),
    decreases later.len(),
{
    if later.len() > 0 {
        lemma_grudge_is_permanent(state, later.drop_last());
    }
}

/// No strategy is changed by cooperation alone: as long as the opponent has
/// never defected, a strategy is in the state in which it started, which is why
/// the first move needs no observation.
pub proof fn lemma_cooperation_keeps_initial_state(identity: StrategyEnum, history: Seq<Action>)
    requires
        forall|k: int| 0 <= k < history.len() ==> history[k] == Action::Cooperate,
    ensures
        StrategyState::initial(identity).observed_all(history) == StrategyState::initial(identity),
    decreases history.len(),
{
    if history.len() > 0 {
        lemma_cooperation_keeps_initial_state(identity, history.drop_last());
    }
}

/// Observing never changes which strategy a state belongs to.
pub proof fn lemma_identity_is_kept(state: StrategyState, history: Seq<Action>)
    ensures
        state.observed_all(history).identity() == state.identity(),
    decreases history.len(),
{
    if history.len() > 0 {
        lemma_identity_is_kept(state, history.drop_last());
    }
}

/// Starting over forgets everything: whatever a strategy has observed, a reset
/// brings it back to the state in which a fresh instance begins.
pub proof fn lemma_reset_forgets_history(identity: StrategyEnum, history: Seq<Action>)
    ensures
        StrategyState::initial(identity).observed_all(history).reset() == StrategyState::initial(
            identity,
        ),
{
    lemma_identity_is_kept(StrategyState::initial(identity), history);
}

} // verus!
