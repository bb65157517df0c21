use damage_calc::{find_optimal_links, link_skill_list, LinkSkill, Stat, StatChange, LINK_SKILL_COUNT};

fn amounts(link: &LinkSkill) -> Vec<(Stat, f64)> {
    link.effects.iter().map(|e| (e.stat, e.amount_tenths as f64 / 10.0)).collect()
}

#[test]
fn catalog_names() {
    let names: Vec<String> = link_skill_list().into_iter().map(|link| link.name).collect();
    assert_eq!(
        names,
        vec![
            "Mage",
            "Archer",
            "Thief",
            "Pirate",
            "Cygnus",
            "Xenon",
            "DemonSlayer",
            "DemonAvenger",
            "Luminous",
            "Phantom",
            "Cain",
            "Cadena",
            "Adel",
            "Ilium",
            "Ark",
            "Hoyoung",
            "Zero",
            "Kinesis",
        ]
    );
    assert_eq!(names.len(), LINK_SKILL_COUNT);
}

#[test]
fn catalog_bonuses() {
    let catalog = link_skill_list();
    let expected: Vec<Vec<(Stat, f64)>> = vec![
        vec![(Stat::ExtraDmgPercent, 9.0), (Stat::ExtraIgnoreGuardPercent, 9.0)],
        vec![(Stat::CritRatePercent, 10.0)],
        vec![(Stat::ExtraDmgPercent, 9.0)],
        vec![(Stat::MainStat, 70.0), (Stat::SubStat, 70.0)],
        vec![(Stat::Atk, 25.0)],
        vec![(Stat::MainStatPercent, 10.0), (Stat::SubStatPercent, 10.0)],
        vec![(Stat::BossDmgPercent, 15.0)],
        vec![(Stat::DmgPercent, 10.0)],
        vec![(Stat::IgnoreGuardPercent, 15.0)],
        vec![(Stat::CritRatePercent, 15.0)],
        vec![(Stat::ExtraDmgPercent, 8.5)],
        vec![(Stat::ExtraDmgPercent, 12.0)],
        vec![(Stat::DmgPercent, 8.0), (Stat::BossDmgPercent, 4.0)],
        vec![(Stat::DmgPercent, 12.0)],
        vec![(Stat::DmgPercent, 11.0)],
        vec![(Stat::IgnoreGuardPercent, 10.0)],
        vec![(Stat::IgnoreGuardPercent, 10.0)],
        vec![(Stat::CritDmgPercent, 4.0)],
    ];
    assert_eq!(catalog.len(), expected.len());
    for (link, expected) in catalog.iter().zip(&expected) {
        assert_eq!(&amounts(link), expected, "{}", link.name);
    }
}

#[test]
fn catalog_bonuses_are_positive() {
    for link in link_skill_list() {
        assert!(!link.effects.is_empty() && link.effects.len() <= 2);
        for effect in &link.effects {
            assert!(effect.amount_tenths > 0);
        }
    }
}

#[test]
fn link_skill_builders() {
    let change = StatChange::new(Stat::Atk, 250);
    assert_eq!(change, StatChange { stat: Stat::Atk, amount_tenths: 250 });
    let link = LinkSkill::new("Cygnus", vec![change]);
    assert_eq!(link.name, "Cygnus");
    assert_eq!(link.effects, vec![change]);
}

#[test]
fn greedy_selection_over_the_catalog() {
    let catalog = link_skill_list();
    // Scores a link skill by the sum of its bonuses, whatever was picked before.
    let score = |_taken: &Vec<usize>, candidate: usize| -> u64 {
        catalog[candidate].effects.iter().map(|e| e.amount_tenths as u64).sum()
    };
    let picked = find_optimal_links(4, catalog.len(), score);
    let names: Vec<&str> = picked.iter().map(|&i| catalog[i].name.as_str()).collect();
    assert_eq!(names, vec!["Pirate", "Cygnus", "Xenon", "Mage"]);
    assert_eq!(find_optimal_links(40, catalog.len(), score).len(), LINK_SKILL_COUNT);
}
