use vstd::prelude::*;

verus! {

/// The fixed inputs of one calculation: the boss that is fought and what the
/// character has already committed.
#[derive(Debug)]
pub struct CalculatorInfo {
    /// Guard of the target boss, in percent.
    pub target_boss_guard_percent: usize,
    /// Elemental resistance of the target boss, in percent.
    pub target_boss_elemental_resistance_percent: usize,
    /// Number of link skill slots that are still free.
    pub free_link_skill_spaces: usize,
    /// Levels already invested in hyper stats outside the search, one entry per stat.
    pub used_hyper_stat_levels: Vec<usize>,
    /// Character level.
    pub level: usize,
}

impl CalculatorInfo {
    /// The reference scenario: a level 251 character with ten free link slots and
    /// one hyper stat already at level 10, against a boss with 300% guard and 50%
    /// elemental resistance.
    pub fn init() -> (info: Self)
        ensures
            info.target_boss_guard_percent == 300,
            info.target_boss_elemental_resistance_percent == 50,
            info.free_link_skill_spaces == 10,
            info.used_hyper_stat_levels@ == seq![10usize],
            info.level == 251,
    {
        let mut used: Vec<usize> = Vec::new();
        used.push(10);
        Self {
            target_boss_guard_percent: 300,
            target_boss_elemental_resistance_percent: 50,
            free_link_skill_spaces: 10,
            used_hyper_stat_levels: used,
            level: 251,
        }
    }
}

} // verus!
