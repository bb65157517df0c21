//! What an allocation of hyper stat levels costs, and when a point budget pays for it.

use vstd::prelude::*;

verus! {

/// Points that raise one stat from level 0 to `level`: the sum of the first
/// `level` entries of `costs`. Entries past the end of the table count as free.
pub open spec fn level_cost(costs: Seq<usize>, level: int) -> int
    decreases level,
{
    if level <= 0 {
        0
    } else if level <= costs.len() {
        level_cost(costs, level - 1) + costs[level - 1]
    } else {
        level_cost(costs, level - 1)
    }
}

/// Points that the levels at positions `from..` of `levels` cost together.
pub open spec fn cost_from(costs: Seq<usize>, levels: Seq<usize>, from: int) -> int
    decreases levels.len() - from,
{
    if from < 0 || from >= levels.len() {
        0
    } else {
        level_cost(costs, levels[from] as int) + cost_from(costs, levels, from + 1)
    }
}

/// Points that all of `levels` cost together.
pub open spec fn total_cost(costs: Seq<usize>, levels: Seq<usize>) -> int {
    cost_from(costs, levels, 0)
}

/// A level never costs a negative amount, and a higher level never costs less.
pub proof fn lemma_level_cost_monotone(costs: Seq<usize>, low: int, high: int)
    requires
        low <= high,
    ensures
        0 <= level_cost(costs, low) <= level_cost(costs, high),
    decreases high,
{
    if high > 0 {
        if low < high {
            lemma_level_cost_monotone(costs, low, high - 1);
        } else {
            lemma_level_cost_monotone(costs, low - 1, high - 1);
        }
    }
}

/// The levels from any position on cost at least nothing, and at least what
/// the first of them costs.
pub proof fn lemma_cost_from_bounds(costs: Seq<usize>, levels: Seq<usize>, from: int)
    ensures
        0 <= cost_from(costs, levels, from),
        0 <= from < levels.len() ==> level_cost(costs, levels[from] as int) <= cost_from(
            costs,
            levels,
            from,
        ),
    decreases levels.len() - from,
{
    if 0 <= from < levels.len() {
        lemma_cost_from_bounds(costs, levels, from + 1);
        lemma_level_cost_monotone(costs, 0, levels[from] as int);
    }
}

/// `levels` gives every one of `categories` stats a level that the table knows,
/// and `budget` pays for all of them.
pub open spec fn is_allocation(
    costs: Seq<usize>,
    categories: int,
    budget: int,
    levels: Seq<usize>,
) -> bool {
    &&& levels.len() == categories
    &&& forall|j: int| 0 <= j < levels.len() ==> #[trigger] levels[j] <= costs.len()
    &&& total_cost(costs, levels) <= budget
}

/// `levels` keeps what `start` holds before position `from`, and from there on
/// gives every stat a level that the table knows and that `budget` pays for.
pub open spec fn completes(
    costs: Seq<usize>,
    budget: int,
    start: Seq<usize>,
    from: int,
    levels: Seq<usize>,
) -> bool {
    &&& levels.len() == start.len()
    &&& forall|j: int| 0 <= j < from && j < levels.len() ==> #[trigger] levels[j] == start[j]
    &&& forall|j: int| 0 <= from <= j < levels.len() ==> #[trigger] levels[j] <= costs.len()
    &&& cost_from(costs, levels, from) <= budget
}

/// `a` and `b` agree before position `at`, where `a` holds the lower level.
pub open spec fn precedes_at(a: Seq<usize>, b: Seq<usize>, at: int) -> bool {
    &&& 0 <= at < a.len()
    &&& at < b.len()
    &&& a[at] < b[at]
    &&& forall|j: int| 0 <= j < at ==> a[j] == b[j]
}

/// `a` comes before `b` in lexicographic order.
pub open spec fn precedes(a: Seq<usize>, b: Seq<usize>) -> bool {
    exists|at: int| precedes_at(a, b, at)
}

/// Some entry of `combinations` holds exactly `levels`.
pub open spec fn lists(combinations: Seq<Vec<usize>>, levels: Seq<usize>) -> bool {
    exists|k: int| 0 <= k < combinations.len() && (#[trigger] combinations[k])@ == levels
}

/// Every entry of `combinations` comes before all later ones in lexicographic
/// order; in particular no two entries are equal.
pub open spec fn ascending(combinations: Seq<Vec<usize>>) -> bool {
    forall|k1: int, k2: int|
        0 <= k1 < k2 < combinations.len() ==> precedes(
            (#[trigger] combinations[k1])@,
            (#[trigger] combinations[k2])@,
        )
}

/// `combinations` holds the completions of `start` from position `from` on that
/// `budget` pays for: each of them once, and nothing else, in lexicographic order.
pub open spec fn lists_completions(
    combinations: Seq<Vec<usize>>,
    costs: Seq<usize>,
    budget: int,
    start: Seq<usize>,
    from: int,
) -> bool {
    &&& forall|k: int|
        0 <= k < combinations.len() ==> completes(
            costs,
            budget,
            start,
            from,
            (#[trigger] combinations[k])@,
        )
    &&& forall|levels: Seq<usize>| #[trigger]
        completes(costs, budget, start, from, levels) ==> lists(combinations, levels)
    &&& ascending(combinations)
}

/// `combinations` holds the allocations over `categories` stats that `budget`
/// pays for: each of them once, and nothing else, in lexicographic order.
pub open spec fn lists_allocations(
    combinations: Seq<Vec<usize>>,
    costs: Seq<usize>,
    categories: int,
    budget: int,
) -> bool {
    &&& forall|k: int|
        0 <= k < combinations.len() ==> is_allocation(
            costs,
            categories,
            budget,
            (#[trigger] combinations[k])@,
        )
    &&& forall|levels: Seq<usize>| #[trigger]
        is_allocation(costs, categories, budget, levels) ==> lists(combinations, levels)
    &&& ascending(combinations)
}

/// Fixing the level at position `at` and paying for it turns the completions from
/// `at` on into the completions from the next position on.
pub proof fn lemma_descend(
    costs: Seq<usize>,
    budget: int,
    start: Seq<usize>,
    at: int,
    level: int,
    fixed: Seq<usize>,
    levels: Seq<usize>,
)
    requires
        0 <= at < start.len(),
        fixed.len() == start.len(),
        forall|j: int| 0 <= j < at ==> fixed[j] == start[j],
        fixed[at] == level,
        0 <= level <= costs.len(),
    ensures
        completes(costs, budget - level_cost(costs, level), fixed, at + 1, levels) <==> (completes(
            costs,
            budget,
            start,
            at,
            levels,
        ) && levels[at] == level),
{
}

/// The allocation that invests nothing: level 0 for each of `categories` stats.
pub open spec fn no_levels(categories: int) -> Seq<usize> {
    Seq::new(categories as nat, |j: int| 0usize)
}

/// Leaving out leading stats never raises the cost.
pub proof fn lemma_cost_from_later(costs: Seq<usize>, levels: Seq<usize>, from: int, later: int)
    requires
        0 <= from <= later,
    ensures
        cost_from(costs, levels, later) <= cost_from(costs, levels, from),
    decreases later - from,
{
    if from < later {
        lemma_cost_from_later(costs, levels, from + 1, later);
        lemma_cost_from_bounds(costs, levels, from + 1);
        lemma_cost_from_bounds(costs, levels, from);
        if from < levels.len() {
            lemma_level_cost_monotone(costs, 0, levels[from] as int);
        }
    }
}

/// Investing nothing costs nothing.
pub proof fn lemma_no_levels_cost(costs: Seq<usize>, categories: int, from: int)
    requires
        0 <= categories,
    ensures
        cost_from(costs, no_levels(categories), from) == 0,
    decreases categories - from,
{
    if 0 <= from < categories {
        lemma_no_levels_cost(costs, categories, from + 1);
    }
}

/// With no points to spend, and a first level that is not free, the only
/// allocation is the one that invests nothing.
pub proof fn lemma_zero_budget(costs: Seq<usize>, categories: int, levels: Seq<usize>)
    requires
        0 <= categories,
        costs.len() == 0 || costs[0] > 0,
    ensures
        is_allocation(costs, categories, 0, levels) <==> levels == no_levels(categories),
{
    lemma_no_levels_cost(costs, categories, 0);
    if is_allocation(costs, categories, 0, levels) {
        assert forall|j: int| 0 <= j < levels.len() implies levels[j] == 0 by {
            lemma_cost_from_later(costs, levels, 0, j);
            lemma_cost_from_bounds(costs, levels, j);
            if levels[j] > 0 {
                lemma_level_cost_monotone(costs, 1, levels[j] as int);
                assert(level_cost(costs, 1) == level_cost(costs, 0) + costs[0]);
            }
        }
        assert(levels =~= no_levels(categories));
    }
}

/// A listing in lexicographic order holds no allocation twice.
pub proof fn lemma_ascending_distinct(combinations: Seq<Vec<usize>>, k1: int, k2: int)
    requires
        ascending(combinations),
        0 <= k1 < combinations.len(),
        0 <= k2 < combinations.len(),
        k1 != k2,
    ensures
        combinations[k1]@ != combinations[k2]@,
{
    if k1 < k2 {
        assert(precedes(combinations[k1]@, combinations[k2]@));
    } else {
        assert(precedes(combinations[k2]@, combinations[k1]@));
    }
}

/// Number of ways to give each of `stats` stats one of `choices` levels.
pub open spec fn level_vectors(choices: nat, stats: int) -> nat
    decreases stats,
{
    if stats <= 0 {
        1
    } else {
        choices * level_vectors(choices, stats - 1)
    }
}

/// With at least one level to choose from there is at least one way.
pub proof fn lemma_level_vectors_positive(choices: nat, stats: int)
    requires
        choices >= 1,
    ensures
        level_vectors(choices, stats) >= 1,
    decreases stats,
{
    if stats > 0 {
        lemma_level_vectors_positive(choices, stats - 1);
        assert(choices * level_vectors(choices, stats - 1) >= 1) by (nonlinear_arith)
            requires
                choices >= 1,
                level_vectors(choices, stats - 1) >= 1,
        ;
    }
}

} // verus!
