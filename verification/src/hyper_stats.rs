//! Hyper stats: the points a character level grants and the levels they can buy.

use vstd::prelude::*;
use crate::allocation::{
    ascending, completes, cost_from, is_allocation, lemma_cost_from_bounds, lemma_descend,
    lemma_level_cost_monotone, lemma_level_vectors_positive, lemma_zero_budget, level_cost,
    level_vectors, lists,
    lists_allocations, lists_completions, no_levels, precedes, precedes_at, total_cost,
};
use crate::calculator::CalculatorInfo;
use crate::error::CalcError;
use crate::stat::Stat;

verus! {

/// Lowest character level that grants hyper stat points.
pub const MIN_CHARACTER_LEVEL: usize = 140;

/// Highest character level.
pub const MAX_CHARACTER_LEVEL: usize = 275;

/// Highest level of a single hyper stat.
pub const MAX_HYPER_STAT_LEVEL: usize = 15;

/// Hyper stat points granted up to and including `level`: every character level
/// `l` from the lowest one on grants `l / 10 - 11` points.
pub open spec fn points_at(level: int) -> int
    decreases level,
{
    if level < MIN_CHARACTER_LEVEL {
        0
    } else {
        points_at(level - 1) + level / 10 - 11
    }
}

/// Points needed to raise a hyper stat by one level, from level 0 upwards.
pub open spec fn point_costs() -> Seq<usize> {
    seq![1usize, 2, 4, 8, 10, 15, 20, 25, 30, 35, 50, 65, 80, 95, 110]
}

/// The points left at character level `level` once the hyper stat levels in
/// `used` are paid for, or the reason why there is no such number.
pub open spec fn remaining_budget(level: int, used: Seq<usize>) -> Result<int, CalcError> {
    if level < MIN_CHARACTER_LEVEL || level > MAX_CHARACTER_LEVEL {
        Err(CalcError::OutOfRange)
    } else if total_cost(point_costs(), used) > points_at(level) {
        Err(CalcError::BudgetUnderflow)
    } else {
        Ok(points_at(level) - total_cost(point_costs(), used))
    }
}

/// The hyper stats that the search invests in, in the order in which it visits them.
pub open spec fn hyper_stat_order() -> Seq<Stat> {
    seq![
        Stat::MainStatPercentExempt,
        Stat::SubStatPercentExempt,
        Stat::CritRatePercent,
        Stat::CritDmgPercent,
        Stat::IgnoreGuardPercent,
        Stat::DmgPercent,
        Stat::BossDmgPercent,
        Stat::Atk,
    ]
}

/// What one more level of the hyper stat `stat` adds to it, when `level` levels
/// are invested already. Stats without a hyper stat gain nothing.
pub open spec fn effect_per_level(stat: Stat, level: int) -> int {
    match stat {
        Stat::MainStatPercentExempt | Stat::SubStatPercentExempt => 30,
        Stat::CritRatePercent => if level < 5 {
            1
        } else {
            2
        },
        Stat::BossDmgPercent => if level < 5 {
            3
        } else {
            4
        },
        Stat::CritDmgPercent => 1,
        Stat::IgnoreGuardPercent | Stat::DmgPercent | Stat::Atk => 3,
        _ => 0,
    }
}

/// Within the supported levels the number of points is small.
pub proof fn lemma_points_bounds(level: int)
    requires
        MIN_CHARACTER_LEVEL - 1 <= level <= MAX_CHARACTER_LEVEL,
    ensures
        0 <= points_at(level) <= 17 * (level - (MIN_CHARACTER_LEVEL - 1)),
    decreases level,
{
    if level >= MIN_CHARACTER_LEVEL {
        lemma_points_bounds(level - 1);
    }
}

/// Levels invested in hyper stats, one entry per stat.
pub struct HyperStats {
    pub levels: Vec<(Stat, usize)>,
}

impl HyperStats {
    /// Hyper stat points that a character of the given level has received in total.
    pub fn get_hyper_stat_points_from_level(level: usize) -> (points: Result<usize, CalcError>)
        ensures
            match points {
                Ok(p) => MIN_CHARACTER_LEVEL <= level <= MAX_CHARACTER_LEVEL && p == points_at(
                    level as int,
                ),
                Err(e) => !(MIN_CHARACTER_LEVEL <= level <= MAX_CHARACTER_LEVEL) && e
                    == CalcError::OutOfRange,
            },
    {
        if level < MIN_CHARACTER_LEVEL || level > MAX_CHARACTER_LEVEL {
            return Err(CalcError::OutOfRange);
        }
        let mut cursor: usize = MIN_CHARACTER_LEVEL;
        let mut points: usize = 0;
        while cursor <= level
            invariant
                MIN_CHARACTER_LEVEL <= cursor <= level + 1,
                level <= MAX_CHARACTER_LEVEL,
                points == points_at(cursor - 1),
            decreases level + 1 - cursor,
        {
            proof {
                lemma_points_bounds(cursor - 1);
            }
            points = points + (cursor / 10 - 11);
            cursor = cursor + 1;
        }
        Ok(points)
    }

    /// The table of points that each further level of a hyper stat costs.
    pub fn required_points_per_level() -> (costs: Vec<usize>)
        ensures
            costs@ == point_costs(),
    {
        let costs: Vec<usize> = vec![1, 2, 4, 8, 10, 15, 20, 25, 30, 35, 50, 65, 80, 95, 110];
        assert(costs@ =~= point_costs());
        costs
    }

    /// The points that are left for the search at character level `level` when
    /// the hyper stat levels in `used_levels` have been bought already.
    pub fn budget_remaining(level: usize, used_levels: &Vec<usize>) -> (budget: Result<
        usize,
        CalcError,
    >)
        requires
            forall|j: int|
                0 <= j < used_levels@.len() ==> #[trigger] used_levels@[j] <= MAX_HYPER_STAT_LEVEL,
        ensures
            match budget {
                Ok(b) => remaining_budget(level as int, used_levels@) == Ok::<int, CalcError>(
                    b as int,
                ),
                Err(e) => remaining_budget(level as int, used_levels@) == Err::<int, CalcError>(e),
            },
    {
        let mut points = match Self::get_hyper_stat_points_from_level(level) {
            Ok(p) => p,
            Err(e) => {
                return Err(e);
            },
        };
        let costs = Self::required_points_per_level();
        let ghost granted = points as int;
        let mut j: usize = 0;
        while j < used_levels.len()
            invariant
                j <= used_levels@.len(),
                costs@ == point_costs(),
                granted == points_at(level as int),
                MIN_CHARACTER_LEVEL <= level <= MAX_CHARACTER_LEVEL,
                forall|j: int|
                    0 <= j < used_levels@.len() ==> #[trigger] used_levels@[j]
                        <= MAX_HYPER_STAT_LEVEL,
                points + total_cost(costs@, used_levels@) == granted + cost_from(
                    costs@,
                    used_levels@,
                    j as int,
                ),
            decreases used_levels@.len() - j,
        {
            let target = used_levels[j];
            let mut i: usize = 0;
            while i < target
                invariant
                    i <= target <= costs@.len(),
                    j < used_levels@.len(),
                    target == used_levels@[j as int],
                    costs@ == point_costs(),
                    granted == points_at(level as int),
                    MIN_CHARACTER_LEVEL <= level <= MAX_CHARACTER_LEVEL,
                    points + total_cost(costs@, used_levels@) + level_cost(costs@, i as int)
                        == granted + cost_from(costs@, used_levels@, j as int),
                decreases target - i,
            {
                let step = costs[i];
                if step > points {
                    proof {
                        lemma_level_cost_monotone(costs@, i + 1, target as int);
                        lemma_cost_from_bounds(costs@, used_levels@, j as int);
                    }
                    return Err(CalcError::BudgetUnderflow);
                }
                points = points - step;
                i = i + 1;
            }
            j = j + 1;
        }
        Ok(points)
    }

    /// Lists every way to complete `hyper_stat_levels` from the stat at
    /// `current_index` on without spending more than `current_points`.
    ///
    /// The levels before `current_index` are kept as they are. Each later stat
    /// takes every level from 0 up to the end of `required_points_per_level`
    /// that is still paid for, lower levels first, so the completions come out
    /// in lexicographic order. There are at most as many of them as there are
    /// ways to choose a level for each later stat. `hyper_stat_levels` serves as
    /// the work buffer and ends up holding the last completion listed.
    pub fn hyper_stats_dfs(
        hyper_stat_levels: &mut Vec<usize>,
        required_points_per_level: &Vec<usize>,
        hyper_stats: &Vec<(Stat, Vec<usize>)>,
        current_index: usize,
        current_points: usize,
    ) -> (combinations: Vec<Vec<usize>>)
        requires
            old(hyper_stat_levels)@.len() == hyper_stats@.len(),
        ensures
            lists_completions(
                combinations@,
                required_points_per_level@,
                current_points as int,
                old(hyper_stat_levels)@,
                current_index as int,
            ),
            combinations@.len() > 0 && final(hyper_stat_levels)@ == combinations@.last()@,
            combinations@.len() <= level_vectors(
                required_points_per_level@.len() + 1,
                hyper_stats@.len() - current_index,
            ),
        decreases hyper_stats@.len() - current_index,
    {
        let ghost costs = required_points_per_level@;
        let ghost start = hyper_stat_levels@;
        let ghost at = current_index as int;
        let ghost budget = current_points as int;
        let mut combinations: Vec<Vec<usize>> = Vec::new();
        if current_index >= hyper_stats.len() {
            let complete = hyper_stat_levels.clone();
            assert(complete@ =~= start);
            combinations.push(complete);
            proof {
                lemma_cost_from_bounds(costs, start, at);
                assert forall|levels: Seq<usize>| #[trigger]
                    completes(costs, budget, start, at, levels) implies lists(
                    combinations@,
                    levels,
                ) by {
                    assert(levels =~= start);
                    assert(combinations@[0]@ == levels);
                }
            }
            return combinations;
        }
        let mut points: usize = current_points;
        let mut level: usize = 0;
        let ghost choices = costs.len() + 1;
        let ghost below = level_vectors(choices, hyper_stats@.len() - current_index - 1);
        proof {
            lemma_level_vectors_positive(choices, hyper_stats@.len() - current_index - 1);
        }
        loop
            invariant_except_break
                level <= costs.len(),
                combinations@.len() <= level * below,
                points + level_cost(costs, level as int) == budget,
                hyper_stat_levels@.len() == start.len(),
                forall|j: int| 0 <= j < at ==> hyper_stat_levels@[j] == start[j],
                forall|k: int|
                    0 <= k < combinations@.len() ==> completes(
                        costs,
                        budget,
                        start,
                        at,
                        (#[trigger] combinations@[k])@,
                    ) && combinations@[k]@[at] < level,
                forall|levels: Seq<usize>| #[trigger]
                    completes(costs, budget, start, at, levels) && levels[at] < level ==> lists(
                        combinations@,
                        levels,
                    ),
                ascending(combinations@),
            invariant
                costs == required_points_per_level@,
                start == old(hyper_stat_levels)@,
                at == current_index,
                budget == current_points,
                current_index < hyper_stats.len(),
                start.len() == hyper_stats@.len(),
                choices == costs.len() + 1,
                below == level_vectors(choices, hyper_stats@.len() - current_index - 1),
                below >= 1,
            ensures
                lists_completions(combinations@, costs, budget, start, at),
                combinations@.len() > 0 && hyper_stat_levels@ == combinations@.last()@,
                combinations@.len() <= choices * below,
            decreases costs.len() - level,
        {
            hyper_stat_levels.set(current_index, level);
            let ghost fixed = hyper_stat_levels@;
            let ghost before = combinations@;
            let mut deeper = Self::hyper_stats_dfs(
                hyper_stat_levels,
                required_points_per_level,
                hyper_stats,
                current_index + 1,
                points,
            );
            let ghost found = deeper@;
            combinations.append(&mut deeper);
            proof {
                assert forall|k: int| 0 <= k < found.len() implies completes(
                    costs,
                    budget,
                    start,
                    at,
                    (#[trigger] found[k])@,
                ) && found[k]@[at] == level by {
                    lemma_descend(costs, budget, start, at, level as int, fixed, found[k]@);
                }
                assert forall|k: int| 0 <= k < combinations@.len() implies completes(
                    costs,
                    budget,
                    start,
                    at,
                    (#[trigger] combinations@[k])@,
                ) && combinations@[k]@[at] <= level by {
                    if k < before.len() {
                        assert(combinations@[k] == before[k]);
                    } else {
                        assert(combinations@[k] == found[k - before.len()]);
                    }
                }
                assert forall|levels: Seq<usize>| #[trigger]
                    completes(costs, budget, start, at, levels) && levels[at] <= level implies lists(
                    combinations@,
                    levels,
                ) by {
                    if levels[at] < level {
                        assert(lists(before, levels));
                        let k = choose|k: int| 0 <= k < before.len() && (#[trigger] before[k])@ == levels;
                        assert(combinations@[k] == before[k]);
                    } else {
                        lemma_descend(costs, budget, start, at, level as int, fixed, levels);
                        assert(lists(found, levels));
                        let k = choose|k: int| 0 <= k < found.len() && (#[trigger] found[k])@ == levels;
                        assert(combinations@[before.len() + k] == found[k]);
                    }
                }
                assert forall|k1: int, k2: int| 0 <= k1 < k2 < combinations@.len() implies precedes(
                    (#[trigger] combinations@[k1])@,
                    (#[trigger] combinations@[k2])@,
                ) by {
                    if k2 < before.len() {
                        assert(combinations@[k1] == before[k1]);
                        assert(combinations@[k2] == before[k2]);
                    } else if k1 >= before.len() {
                        assert(combinations@[k1] == found[k1 - before.len()]);
                        assert(combinations@[k2] == found[k2 - before.len()]);
                    } else {
                        assert(combinations@[k1] == before[k1]);
                        assert(combinations@[k2] == found[k2 - before.len()]);
                        assert(precedes_at(combinations@[k1]@, combinations@[k2]@, at));
                    }
                }
                assert(combinations@.last() == found.last());
                assert(level * below + below == (level + 1) * below) by (nonlinear_arith);
                assert((level + 1) * below <= choices * below) by (nonlinear_arith)
                    requires
                        level + 1 <= choices,
                        below >= 1,
                ;
            }
            if level >= required_points_per_level.len() {
                break;
            }
            let step = required_points_per_level[level];
            if step > points {
                proof {
                    assert forall|levels: Seq<usize>| #[trigger]
                        completes(costs, budget, start, at, levels) implies levels[at] <= level by {
                        if levels[at] > level {
                            lemma_level_cost_monotone(costs, level + 1, levels[at] as int);
                            lemma_cost_from_bounds(costs, levels, at);
                        }
                    }
                }
                break;
            }
            points = points - step;
            level = level + 1;
        }
        combinations
    }

    /// The effect table of one hyper stat: `early` for each of the first five
    /// levels, `late` for each of the ten after them.
    fn effect_table(early: usize, late: usize) -> (effects: Vec<usize>)
        ensures
            effects@.len() == MAX_HYPER_STAT_LEVEL,
            forall|l: int|
                0 <= l < effects@.len() ==> #[trigger] effects@[l] == if l < 5 {
                    early
                } else {
                    late
                },
    {
        let mut effects: Vec<usize> = Vec::new();
        let mut l: usize = 0;
        while l < MAX_HYPER_STAT_LEVEL
            invariant
                l <= MAX_HYPER_STAT_LEVEL,
                effects@.len() == l,
                forall|i: int|
                    0 <= i < effects@.len() ==> #[trigger] effects@[i] == if i < 5 {
                        early
                    } else {
                        late
                    },
            decreases MAX_HYPER_STAT_LEVEL - l,
        {
            effects.push(if l < 5 { early } else { late });
            l = l + 1;
        }
        effects
    }

    /// The hyper stats of the search with their effect tables: for each stat what
    /// every further level adds to it.
    pub fn hyper_stats_info() -> (info: Vec<(Stat, Vec<usize>)>)
        ensures
            info@.len() == hyper_stat_order().len(),
            forall|k: int|
                0 <= k < info@.len() ==> {
                    &&& (#[trigger] info@[k]).0 == hyper_stat_order()[k]
                    &&& info@[k].1@.len() == MAX_HYPER_STAT_LEVEL
                    &&& forall|l: int|
                        0 <= l < info@[k].1@.len() ==> #[trigger] info@[k].1@[l]
                            == effect_per_level(info@[k].0, l)
                },
    {
        let mut info: Vec<(Stat, Vec<usize>)> = Vec::new();
        info.push((Stat::MainStatPercentExempt, Self::effect_table(30, 30)));
        info.push((Stat::SubStatPercentExempt, Self::effect_table(30, 30)));
        info.push((Stat::CritRatePercent, Self::effect_table(1, 2)));
        info.push((Stat::CritDmgPercent, Self::effect_table(1, 1)));
        info.push((Stat::IgnoreGuardPercent, Self::effect_table(3, 3)));
        info.push((Stat::DmgPercent, Self::effect_table(3, 3)));
        info.push((Stat::BossDmgPercent, Self::effect_table(3, 4)));
        info.push((Stat::Atk, Self::effect_table(3, 3)));
        info
    }

    /// Lists every allocation of levels to the stats of `hyper_stats` that costs
    /// no more than `budget` points, in lexicographic order.
    ///
    /// With nothing to spend, and a first level that is not free, that is the one
    /// allocation that invests nothing. However large the budget, there are no
    /// more allocations than ways to choose a level for each stat.
    pub fn enumerate(
        hyper_stats: &Vec<(Stat, Vec<usize>)>,
        required_points_per_level: &Vec<usize>,
        budget: usize,
    ) -> (combinations: Vec<Vec<usize>>)
        ensures
            lists_allocations(
                combinations@,
                required_points_per_level@,
                hyper_stats@.len() as int,
                budget as int,
            ),
            budget == 0 && (required_points_per_level@.len() == 0 || required_points_per_level@[0]
                > 0) ==> combinations@.len() == 1 && combinations@[0]@ == no_levels(
                hyper_stats@.len() as int,
            ),
            combinations@.len() <= level_vectors(
                required_points_per_level@.len() + 1,
                hyper_stats@.len() as int,
            ),
    {
        let ghost costs = required_points_per_level@;
        let ghost categories = hyper_stats@.len() as int;
        let mut hyper_stat_levels: Vec<usize> = Vec::new();
        let mut k: usize = 0;
        while k < hyper_stats.len()
            invariant
                k <= hyper_stats.len(),
                hyper_stat_levels@.len() == k,
            decreases hyper_stats.len() - k,
        {
            hyper_stat_levels.push(0);
            k = k + 1;
        }
        let ghost start = hyper_stat_levels@;
        let combinations = Self::hyper_stats_dfs(
            &mut hyper_stat_levels,
            required_points_per_level,
            hyper_stats,
            0,
            budget,
        );
        proof {
            assert forall|levels: Seq<usize>|
                completes(costs, budget as int, start, 0, levels) == is_allocation(
                    costs,
                    categories,
                    budget as int,
                    levels,
                ) by {}
            assert forall|levels: Seq<usize>| #[trigger]
                is_allocation(costs, categories, budget as int, levels) implies lists(
                combinations@,
                levels,
            ) by {
                assert(completes(costs, budget as int, start, 0, levels));
            }
            if budget == 0 && (costs.len() == 0 || costs[0] > 0) {
                assert forall|k: int| 0 <= k < combinations@.len() implies (
                #[trigger] combinations@[k])@ == no_levels(categories) by {
                    lemma_zero_budget(costs, categories, combinations@[k]@);
                }
                if combinations@.len() > 1 {
                    assert(precedes(combinations@[0]@, combinations@[1]@));
                }
            }
        }
        combinations
    }

    /// Lists every allocation of hyper stat levels that the character of `info`
    /// can still pay for: the points of its level, less the levels it has
    /// invested already, spent on the stats of the search at the usual costs.
    pub fn hyper_stats_combinations(info: &CalculatorInfo) -> (combinations: Result<
        Vec<Vec<usize>>,
        CalcError,
    >)
        requires
            forall|j: int|
                0 <= j < info.used_hyper_stat_levels@.len()
                    ==> #[trigger] info.used_hyper_stat_levels@[j] <= MAX_HYPER_STAT_LEVEL,
        ensures
            match combinations {
                Ok(found) => remaining_budget(info.level as int, info.used_hyper_stat_levels@)
                    matches Ok(budget) && lists_allocations(
                    found@,
                    point_costs(),
                    hyper_stat_order().len() as int,
                    budget,
                ) && found@.len() <= level_vectors(
                    point_costs().len() + 1,
                    hyper_stat_order().len() as int,
                ),
                Err(e) => remaining_budget(info.level as int, info.used_hyper_stat_levels@)
                    == Err::<int, CalcError>(e),
            },
    {
        let hyper_stats = Self::hyper_stats_info();
        let required_points_per_level = Self::required_points_per_level();
        match Self::budget_remaining(info.level, &info.used_hyper_stat_levels) {
            Ok(points) => Ok(Self::enumerate(&hyper_stats, &required_points_per_level, points)),
            Err(e) => Err(e),
        }
    }
}

} // verus!
