use damage_calc::{CombineRule, Stat, STAT_COUNT};

fn all_stats() -> Vec<Stat> {
    vec![
        Stat::MainStat,
        Stat::MainStatPercent,
        Stat::MainStatPercentExempt,
        Stat::SubStat,
        Stat::SubStatPercent,
        Stat::SubStatPercentExempt,
        Stat::Atk,
        Stat::AtkPercent,
        Stat::DmgPercent,
        Stat::BossDmgPercent,
        Stat::FinalDmgPercent,
        Stat::IgnoreGuardPercent,
        Stat::IgnoreElementalResistancePercent,
        Stat::CritRatePercent,
        Stat::CritDmgPercent,
        Stat::WeaponConstant,
        Stat::ClassConstant,
        Stat::MasteryPercent,
        Stat::ExtraDmgPercent,
        Stat::ExtraBossDmgPercent,
        Stat::ExtraFinalDmgPercent,
        Stat::ExtraIgnoreGuardPercent,
        Stat::ExtraCritRatePercent,
        Stat::ExtraCritDmgPercent,
    ]
}

#[test]
fn every_stat_has_its_own_slot() {
    let stats = all_stats();
    assert_eq!(stats.len(), STAT_COUNT);
    for (position, stat) in stats.iter().enumerate() {
        assert_eq!(stat.index(), position);
    }
}

#[test]
fn critical_rate_is_capped() {
    assert_eq!(Stat::CritRatePercent.combine_rule(), CombineRule::CappedSum);
    assert_eq!(Stat::ExtraCritRatePercent.combine_rule(), CombineRule::CappedSum);
}

#[test]
fn guard_ignore_compounds() {
    assert_eq!(Stat::IgnoreGuardPercent.combine_rule(), CombineRule::Complement);
    assert_eq!(Stat::ExtraIgnoreGuardPercent.combine_rule(), CombineRule::Complement);
}

#[test]
fn other_stats_add_up() {
    for stat in all_stats() {
        let special = matches!(
            stat,
            Stat::CritRatePercent
                | Stat::ExtraCritRatePercent
                | Stat::IgnoreGuardPercent
                | Stat::ExtraIgnoreGuardPercent
        );
        assert_eq!(stat.combine_rule() == CombineRule::Sum, !special);
    }
    assert_eq!(Stat::IgnoreElementalResistancePercent.combine_rule(), CombineRule::Sum);
    assert_eq!(Stat::CritDmgPercent.combine_rule(), CombineRule::Sum);
}
