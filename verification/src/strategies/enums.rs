use vstd::prelude::*;

verus! {

/// The identities of the strategies on the roster, in roster order.
#[derive(Clone, Copy, Debug, Eq, Hash, PartialEq, Structural)]
pub enum StrategyEnum {
    AlwaysCooperate,
    HoldsGrudge,
    TitForTat,
    TitFor2Tats,
    AlwaysDefect,
}

/// The roster: every identity once, in the order in which tournaments walk it
/// and in which equal totals are ranked.
pub open spec fn roster() -> Seq<StrategyEnum> {
    seq![
        StrategyEnum::AlwaysCooperate,
        StrategyEnum::HoldsGrudge,
        StrategyEnum::TitForTat,
        StrategyEnum::TitFor2Tats,
        StrategyEnum::AlwaysDefect,
    ]
}

impl StrategyEnum {
    /// The place of this identity on the roster, counted from zero.
    pub open spec fn position(self) -> int {
        match self {
            StrategyEnum::AlwaysCooperate => 0,
            StrategyEnum::HoldsGrudge => 1,
            StrategyEnum::TitForTat => 2,
            StrategyEnum::TitFor2Tats => 3,
            StrategyEnum::AlwaysDefect => 4,
        }
    }

    /// The place of this identity on the roster, counted from zero.
    pub fn index(self) -> (i: u8)
        ensures
            i == self.position(),
            i < 5,
    {
        match self {
            StrategyEnum::AlwaysCooperate => 0,
            StrategyEnum::HoldsGrudge => 1,
            StrategyEnum::TitForTat => 2,
            StrategyEnum::TitFor2Tats => 3,
            StrategyEnum::AlwaysDefect => 4,
        }
    }
}

/// Lists the roster in its fixed order.
pub fn get_strategies() -> (strategies: Vec<StrategyEnum>)
    ensures
        strategies@ == roster(),
{
    let mut strategies = Vec::new();
    strategies.push(StrategyEnum::AlwaysCooperate);
    strategies.push(StrategyEnum::HoldsGrudge);
    strategies.push(StrategyEnum::TitForTat);
    strategies.push(StrategyEnum::TitFor2Tats);
    strategies.push(StrategyEnum::AlwaysDefect);
    strategies
}

} // verus!
