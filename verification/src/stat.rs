use vstd::prelude::*;

verus! {

/// Number of stat identifiers.
pub const STAT_COUNT: usize = 24;

/// The closed set of stats that enter the damage formula.
///
/// Names that end in `Percent` are measured in percent. The `Extra*` stats hold
/// bonuses that are kept apart from the base value of the same kind.
#[derive(Clone, Copy, Debug, PartialEq, Eq, Hash, Structural)]
pub enum Stat {
    MainStat,
    MainStatPercent,
    MainStatPercentExempt,
    SubStat,
    SubStatPercent,
    SubStatPercentExempt,
    Atk,
    AtkPercent,
    DmgPercent,
    BossDmgPercent,
    FinalDmgPercent,
    IgnoreGuardPercent,
    IgnoreElementalResistancePercent,
    CritRatePercent,
    CritDmgPercent,
    WeaponConstant,
    ClassConstant,
    MasteryPercent,
    ExtraDmgPercent,
    ExtraBossDmgPercent,
    ExtraFinalDmgPercent,
    ExtraIgnoreGuardPercent,
    ExtraCritRatePercent,
    ExtraCritDmgPercent,
}

/// How a bonus is folded into the current value of a stat.
#[derive(Clone, Copy, Debug, PartialEq, Eq, Structural)]
pub enum CombineRule {
    /// The bonus is added.
    Sum,
    /// The bonus is added and the result is capped at one hundred percent.
    CappedSum,
    /// Both values are shares that are ignored independently: the shares that
    /// remain are multiplied.
    Complement,
}

impl Stat {
    /// Position of the stat in declaration order.
    pub open spec fn spec_index(self) -> nat {
        match self {
            Stat::MainStat => 0,
            Stat::MainStatPercent => 1,
            Stat::MainStatPercentExempt => 2,
            Stat::SubStat => 3,
            Stat::SubStatPercent => 4,
            Stat::SubStatPercentExempt => 5,
            Stat::Atk => 6,
            Stat::AtkPercent => 7,
            Stat::DmgPercent => 8,
            Stat::BossDmgPercent => 9,
            Stat::FinalDmgPercent => 10,
            Stat::IgnoreGuardPercent => 11,
            Stat::IgnoreElementalResistancePercent => 12,
            Stat::CritRatePercent => 13,
            Stat::CritDmgPercent => 14,
            Stat::WeaponConstant => 15,
            Stat::ClassConstant => 16,
            Stat::MasteryPercent => 17,
            Stat::ExtraDmgPercent => 18,
            Stat::ExtraBossDmgPercent => 19,
            Stat::ExtraFinalDmgPercent => 20,
            Stat::ExtraIgnoreGuardPercent => 21,
            Stat::ExtraCritRatePercent => 22,
            Stat::ExtraCritDmgPercent => 23,
        }
    }

    /// The rule by which a bonus to this stat combines with its current value.
    pub open spec fn spec_combine_rule(self) -> CombineRule {
        if self == Stat::CritRatePercent || self == Stat::ExtraCritRatePercent {
            CombineRule::CappedSum
        } else if self == Stat::IgnoreGuardPercent || self == Stat::ExtraIgnoreGuardPercent {
            CombineRule::Complement
        } else {
            CombineRule::Sum
        }
    }

    /// Slot of this stat in a table that holds one value per stat.
    pub fn index(&self) -> (i: usize)
        ensures
            i == self.spec_index(),
            i < STAT_COUNT,
    {
        match self {
            Stat::MainStat => 0,
            Stat::MainStatPercent => 1,
            Stat::MainStatPercentExempt => 2,
            Stat::SubStat => 3,
            Stat::SubStatPercent => 4,
            Stat::SubStatPercentExempt => 5,
            Stat::Atk => 6,
            Stat::AtkPercent => 7,
            Stat::DmgPercent => 8,
            Stat::BossDmgPercent => 9,
            Stat::FinalDmgPercent => 10,
            Stat::IgnoreGuardPercent => 11,
            Stat::IgnoreElementalResistancePercent => 12,
            Stat::CritRatePercent => 13,
            Stat::CritDmgPercent => 14,
            Stat::WeaponConstant => 15,
            Stat::ClassConstant => 16,
            Stat::MasteryPercent => 17,
            Stat::ExtraDmgPercent => 18,
            Stat::ExtraBossDmgPercent => 19,
            Stat::ExtraFinalDmgPercent => 20,
            Stat::ExtraIgnoreGuardPercent => 21,
            Stat::ExtraCritRatePercent => 22,
            Stat::ExtraCritDmgPercent => 23,
        }
    }

    /// How a bonus to this stat is applied: critical rate is a capped sum, guard
    /// ignore compounds, everything else adds up.
    pub fn combine_rule(&self) -> (rule: CombineRule)
        ensures
            rule == self.spec_combine_rule(),
    {
        match self {
            Stat::CritRatePercent | Stat::ExtraCritRatePercent => CombineRule::CappedSum,
            Stat::IgnoreGuardPercent | Stat::ExtraIgnoreGuardPercent => CombineRule::Complement,
            _ => CombineRule::Sum,
        }
    }

    /// Two stats never share a slot.
    pub proof fn lemma_index_injective(a: Stat, b: Stat)
        requires
            a.spec_index() == b.spec_index(),
        ensures
            a == b,
    {
    }
}

} // verus!
