//! The catalog of link skills.
//!
//! A link skill gives bonuses to one or two stats. The bonuses are decimal
//! numbers with at most one digit after the point; the catalog holds them in
//! tenths, so that 85 stands for a bonus of 8.5.

use vstd::prelude::*;
use crate::stat::Stat;

verus! {

/// Number of link skills in the catalog.
pub const LINK_SKILL_COUNT: usize = 18;

/// A bonus to one stat.
#[derive(Clone, Copy, Debug, PartialEq, Eq, Structural)]
pub struct StatChange {
    /// The stat that the bonus goes to.
    pub stat: Stat,
    /// The bonus, in tenths.
    pub amount_tenths: i64,
}

impl StatChange {
    /// A bonus of `amount_tenths` tenths to `stat`.
    pub fn new(stat: Stat, amount_tenths: i64) -> (change: Self)
        ensures
            change == (StatChange { stat, amount_tenths }),
    {
        Self { stat, amount_tenths }
    }
}

/// A link skill: a name and the bonuses it gives, in the order in which they apply.
#[derive(Clone, Debug)]
pub struct LinkSkill {
    pub name: String,
    pub effects: Vec<StatChange>,
}

impl LinkSkill {
    /// The link skill called `name` that gives `effects`.
    pub fn new(name: &str, effects: Vec<StatChange>) -> (link: Self)
        ensures
            link.name@ == name@,
            link.effects@ == effects@,
    {
        Self { name: name.to_string(), effects }
    }
}

/// The names of the link skills, in catalog order.
pub open spec fn link_skill_names() -> Seq<Seq<char>> {
    seq![
        "Mage"@,
        "Archer"@,
        "Thief"@,
        "Pirate"@,
        "Cygnus"@,
        "Xenon"@,
        "DemonSlayer"@,
        "DemonAvenger"@,
        "Luminous"@,
        "Phantom"@,
        "Cain"@,
        "Cadena"@,
        "Adel"@,
        "Ilium"@,
        "Ark"@,
        "Hoyoung"@,
        "Zero"@,
        "Kinesis"@,
    ]
}

/// The bonuses of the link skills, in catalog order.
pub open spec fn link_skill_effects() -> Seq<Seq<StatChange>> {
    seq![
        seq![
            StatChange { stat: Stat::ExtraDmgPercent, amount_tenths: 90 },
            StatChange { stat: Stat::ExtraIgnoreGuardPercent, amount_tenths: 90 },
        ],
        seq![StatChange { stat: Stat::CritRatePercent, amount_tenths: 100 }],
        seq![StatChange { stat: Stat::ExtraDmgPercent, amount_tenths: 90 }],
        seq![
            StatChange { stat: Stat::MainStat, amount_tenths: 700 },
            StatChange { stat: Stat::SubStat, amount_tenths: 700 },
        ],
        seq![StatChange { stat: Stat::Atk, amount_tenths: 250 }],
        seq![
            StatChange { stat: Stat::MainStatPercent, amount_tenths: 100 },
            StatChange { stat: Stat::SubStatPercent, amount_tenths: 100 },
        ],
        seq![StatChange { stat: Stat::BossDmgPercent, amount_tenths: 150 }],
        seq![StatChange { stat: Stat::DmgPercent, amount_tenths: 100 }],
        seq![StatChange { stat: Stat::IgnoreGuardPercent, amount_tenths: 150 }],
        seq![StatChange { stat: Stat::CritRatePercent, amount_tenths: 150 }],
        seq![StatChange { stat: Stat::ExtraDmgPercent, amount_tenths: 85 }],
        seq![StatChange { stat: Stat::ExtraDmgPercent, amount_tenths: 120 }],
        seq![
            StatChange { stat: Stat::DmgPercent, amount_tenths: 80 },
            StatChange { stat: Stat::BossDmgPercent, amount_tenths: 40 },
        ],
        seq![StatChange { stat: Stat::DmgPercent, amount_tenths: 120 }],
        seq![StatChange { stat: Stat::DmgPercent, amount_tenths: 110 }],
        seq![StatChange { stat: Stat::IgnoreGuardPercent, amount_tenths: 100 }],
        seq![StatChange { stat: Stat::IgnoreGuardPercent, amount_tenths: 100 }],
        seq![StatChange { stat: Stat::CritDmgPercent, amount_tenths: 40 }],
    ]
}

/// A link skill with one bonus.
fn single(name: &str, stat: Stat, amount_tenths: i64) -> (link: LinkSkill)
    ensures
        link.name@ == name@,
        link.effects@ == seq![StatChange { stat, amount_tenths }],
{
    let mut effects: Vec<StatChange> = Vec::new();
    effects.push(StatChange::new(stat, amount_tenths));
    assert(effects@ =~= seq![StatChange { stat, amount_tenths }]);
    LinkSkill::new(name, effects)
}

/// A link skill with two bonuses, `first` applied before `second`.
fn double(name: &str, first: StatChange, second: StatChange) -> (link: LinkSkill)
    ensures
        link.name@ == name@,
        link.effects@ == seq![first, second],
{
    let mut effects: Vec<StatChange> = Vec::new();
    effects.push(first);
    effects.push(second);
    assert(effects@ =~= seq![first, second]);
    LinkSkill::new(name, effects)
}

/// The catalog of link skills.
///
/// Every link skill gives one or two bonuses, and every bonus is positive, so a
/// stat never falls when a link skill is applied.
pub fn link_skill_list() -> (catalog: Vec<LinkSkill>)
    ensures
        catalog@.len() == LINK_SKILL_COUNT,
        forall|k: int|
            0 <= k < catalog@.len() ==> {
                &&& (#[trigger] catalog@[k]).name@ == link_skill_names()[k]
                &&& catalog@[k].effects@ == link_skill_effects()[k]
                &&& 1 <= catalog@[k].effects@.len() <= 2
                &&& forall|e: int|
                    0 <= e < catalog@[k].effects@.len() ==> (
                    #[trigger] catalog@[k].effects@[e]).amount_tenths > 0
            },
{
    let mut catalog: Vec<LinkSkill> = Vec::new();
    catalog.push(
        double(
            "Mage",
            StatChange::new(Stat::ExtraDmgPercent, 90),
            StatChange::new(Stat::ExtraIgnoreGuardPercent, 90),
        ),
    );
    catalog.push(single("Archer", Stat::CritRatePercent, 100));
    catalog.push(single("Thief", Stat::ExtraDmgPercent, 90));
    catalog.push(
        double("Pirate", StatChange::new(Stat::MainStat, 700), StatChange::new(Stat::SubStat, 700)),
    );
    catalog.push(single("Cygnus", Stat::Atk, 250));
    catalog.push(
        double(
            "Xenon",
            StatChange::new(Stat::MainStatPercent, 100),
            StatChange::new(Stat::SubStatPercent, 100),
        ),
    );
    catalog.push(single("DemonSlayer", Stat::BossDmgPercent, 150));
    catalog.push(single("DemonAvenger", Stat::DmgPercent, 100));
    catalog.push(single("Luminous", Stat::IgnoreGuardPercent, 150));
    catalog.push(single("Phantom", Stat::CritRatePercent, 150));
    catalog.push(single("Cain", Stat::ExtraDmgPercent, 85));
    catalog.push(single("Cadena", Stat::ExtraDmgPercent, 120));
    catalog.push(
        double(
            "Adel",
            StatChange::new(Stat::DmgPercent, 80),
            StatChange::new(Stat::BossDmgPercent, 40),
        ),
    );
    catalog.push(single("Ilium", Stat::DmgPercent, 120));
    catalog.push(single("Ark", Stat::DmgPercent, 110));
    catalog.push(single("Hoyoung", Stat::IgnoreGuardPercent, 100));
    catalog.push(single("Zero", Stat::IgnoreGuardPercent, 100));
    catalog.push(single("Kinesis", Stat::CritDmgPercent, 40));
    catalog
}

} // verus!
