//! Greedy selection of link skills.
//!
//! The selection runs in rounds. In each round the caller scores every link
//! skill that is still unused by the damage it would add to the current stats, and
//! the selector takes the unused one with the highest score, the first of them
//! where several share it. A pick is never taken back, so the result need not be
//! the best set of that size.

use vstd::prelude::*;

verus! {

/// Among the first `upto` candidates, candidate `i` is unused, no unused one
/// scores higher, and every unused one before it scores lower.
pub open spec fn leads(used: Seq<bool>, scores: Seq<u64>, upto: int, i: int) -> bool {
    &&& 0 <= i < upto
    &&& !used[i]
    &&& forall|j: int| 0 <= j < upto && !#[trigger] used[j] ==> scores[j] <= scores[i]
    &&& forall|j: int| 0 <= j < i && !#[trigger] used[j] ==> scores[j] < scores[i]
}

/// Candidate `i` is the pick of a round: the first unused candidate with the
/// highest score.
pub open spec fn is_best(used: Seq<bool>, scores: Seq<u64>, i: int) -> bool {
    leads(used, scores, used.len() as int, i)
}

/// A round has at most one pick.
pub proof fn lemma_best_unique(used: Seq<bool>, scores: Seq<u64>, i: int, j: int)
    requires
        is_best(used, scores, i),
        is_best(used, scores, j),
    ensures
        i == j,
{
}

/// A sequence in which each of the first `n` indices occurs has at least `n` entries.
proof fn lemma_covering_len(picked: Seq<usize>, n: nat)
    requires
        forall|v: usize| v < n ==> picked.contains(v),
        n <= usize::MAX,
    ensures
        picked.len() >= n,
    decreases n,
{
    if n > 0 {
        let last = (n - 1) as usize;
        assert(picked.contains(last));
        let k = choose|k: int| 0 <= k < picked.len() && picked[k] == last;
        let rest = picked.remove(k);
        assert forall|v: usize| v < n - 1 implies rest.contains(v) by {
            assert(picked.contains(v));
            let j = choose|j: int| 0 <= j < picked.len() && picked[j] == v;
            if j < k {
                assert(rest[j] == picked[j]);
            } else {
                assert(rest[j - 1] == picked[j]);
            }
        }
        lemma_covering_len(rest, (n - 1) as nat);
    }
}

/// The first unused candidate with the highest score, if any candidate is unused.
pub fn best_unused(used: &Vec<bool>, scores: &Vec<u64>) -> (best: Option<usize>)
    requires
        scores@.len() == used@.len(),
    ensures
        match best {
            Some(i) => is_best(used@, scores@, i as int),
            None => forall|j: int| 0 <= j < used@.len() ==> used@[j],
        },
{
    let mut best: Option<usize> = None;
    let mut j: usize = 0;
    while j < used.len()
        invariant
            j <= used@.len(),
            scores@.len() == used@.len(),
            match best {
                Some(i) => leads(used@, scores@, j as int, i as int),
                None => forall|k: int| 0 <= k < j ==> used@[k],
            },
        decreases used@.len() - j,
    {
        if !used[j] {
            match best {
                Some(i) => {
                    if scores[j] > scores[i] {
                        best = Some(j);
                    }
                },
                None => {
                    best = Some(j);
                },
            }
        }
        j = j + 1;
    }
    best
}

/// What a selection has decided so far.
pub struct SelectionView {
    /// For each candidate of the catalog whether it has been picked.
    pub used: Seq<bool>,
    /// The picked candidates, by their position in the catalog, in the order in
    /// which they were picked.
    pub picked: Seq<usize>,
    /// How many picks were asked for.
    pub requested: nat,
}

impl SelectionView {
    /// How many picks the selection makes: as many as were asked for, but no
    /// more than there are candidates.
    pub open spec fn wanted(self) -> nat {
        if self.requested <= self.used.len() {
            self.requested
        } else {
            self.used.len()
        }
    }

    /// The catalog can be indexed, no candidate is picked twice, the used
    /// candidates are the picked ones, and no more are picked than the selection
    /// makes.
    pub open spec fn wf(self) -> bool {
        &&& self.used.len() <= usize::MAX
        &&& self.picked.no_duplicates()
        &&& self.picked.len() <= self.wanted()
        &&& forall|k: int| 0 <= k < self.picked.len() ==> #[trigger] self.picked[k] < self.used.len()
        &&& forall|i: int|
            0 <= i < self.used.len() ==> (#[trigger] self.used[i] <==> self.picked.contains(
                i as usize,
            ))
    }

    /// Whether every pick has been made.
    pub open spec fn done(self) -> bool {
        self.picked.len() >= self.wanted()
    }

    /// A finished selection holds as many picks as were asked for, or the whole
    /// catalog where fewer candidates exist; each pick is a candidate of the
    /// catalog, and none occurs twice.
    pub proof fn lemma_finished(self)
        requires
            self.wf(),
            self.done(),
        ensures
            self.picked.len() == vstd::math::min(
                self.requested as int,
                self.used.len() as int,
            ),
            self.picked.no_duplicates(),
            forall|k: int|
                0 <= k < self.picked.len() ==> #[trigger] self.picked[k]
                    < self.used.len(),
    {
    }

    /// An unfinished selection still has an unused candidate, so every round
    /// before the last adds a pick.
    pub proof fn lemma_unfinished_has_candidate(self)
        requires
            self.wf(),
            !self.done(),
        ensures
            exists|i: int| 0 <= i < self.used.len() && !#[trigger] self.used[i],
    {
        if forall|i: int| 0 <= i < self.used.len() ==> #[trigger] self.used[i] {
            assert forall|v: usize| v < self.used.len() implies self.picked.contains(
                v,
            ) by {
                assert(self.used[v as int]);
            }
            lemma_covering_len(self.picked, self.used.len());
        }
    }
}

/// A greedy selection in progress.
pub struct LinkSelector {
    used: Vec<bool>,
    picked: Vec<usize>,
    requested: usize,
}

impl View for LinkSelector {
    type V = SelectionView;

    closed spec fn view(&self) -> SelectionView {
        SelectionView { used: self.used@, picked: self.picked@, requested: self.requested as nat }
    }
}

impl LinkSelector {
    /// Starts a selection of `num` out of `catalog_size` candidates, none of
    /// them picked yet.
    pub fn new(num: usize, catalog_size: usize) -> (selector: Self)
        ensures
            selector@.wf(),
            selector@.requested == num,
            selector@.picked == Seq::<usize>::empty(),
            selector@.used == Seq::new(catalog_size as nat, |i: int| false),
    {
        let mut used: Vec<bool> = Vec::new();
        let mut i: usize = 0;
        while i < catalog_size
            invariant
                i <= catalog_size,
                used@.len() == i,
                forall|k: int| 0 <= k < i ==> !used@[k],
            decreases catalog_size - i,
        {
            used.push(false);
            i = i + 1;
        }
        assert(used@ =~= Seq::new(catalog_size as nat, |i: int| false));
        assert(Seq::<usize>::empty().no_duplicates());
        LinkSelector { used, picked: Vec::new(), requested: num }
    }

    /// Whether candidate `i` has been picked. No candidate lies past the end of
    /// the catalog.
    pub fn is_used(&self, i: usize) -> (used: bool)
        ensures
            used == (i < self@.used.len() && self@.used[i as int]),
    {
        i < self.used.len() && self.used[i]
    }

    /// Whether every pick has been made.
    pub fn is_done(&self) -> (done: bool)
        ensures
            done == self@.done(),
    {
        self.picked.len() >= self.requested || self.picked.len() >= self.used.len()
    }

    /// The picks made so far, in order.
    pub fn picked(&self) -> (picked: Vec<usize>)
        ensures
            picked@ == self@.picked,
    {
        let mut picked: Vec<usize> = Vec::new();
        let mut k: usize = 0;
        while k < self.picked.len()
            invariant
                k <= self.picked@.len(),
                picked@ == self.picked@.take(k as int),
            decreases self.picked@.len() - k,
        {
            picked.push(self.picked[k]);
            assert(self.picked@.take(k + 1) =~= self.picked@.take(k as int).push(
                self.picked@[k as int],
            ));
            k = k + 1;
        }
        assert(self.picked@.take(k as int) =~= self.picked@);
        picked
    }

    /// Runs one round: given a score for every candidate of the catalog, picks
    /// the first unused candidate with the highest score and returns its
    /// position. Scores of used candidates are not looked at. Once the selection
    /// is done nothing is picked and nothing changes.
    pub fn pick(&mut self, scores: &Vec<u64>) -> (choice: Option<usize>)
        requires
            old(self)@.wf(),
            scores@.len() == old(self)@.used.len(),
        ensures
            final(self)@.wf(),
            final(self)@.requested == old(self)@.requested,
            match choice {
                Some(i) => {
                    &&& !old(self)@.done()
                    &&& is_best(old(self)@.used, scores@, i as int)
                    &&& final(self)@.used == old(self)@.used.update(i as int, true)
                    &&& final(self)@.picked == old(self)@.picked.push(i)
                },
                None => old(self)@.done() && final(self)@ == old(self)@,
            },
    {
        if self.is_done() {
            return None;
        }
        let ghost before = self@;
        match best_unused(&self.used, scores) {
            Some(i) => {
                self.used.set(i, true);
                self.picked.push(i);
                proof {
                    let after = self@;
                    assert(!before.picked.contains(i));
                    assert forall|a: int, b: int|
                        0 <= a < after.picked.len() && 0 <= b < after.picked.len() && a
                            != b implies after.picked[a] != after.picked[b] by {
                        if a < before.picked.len() {
                            assert(before.picked.contains(after.picked[a]));
                        }
                        if b < before.picked.len() {
                            assert(before.picked.contains(after.picked[b]));
                        }
                    }
                    assert forall|j: int| 0 <= j < after.used.len() implies (
                    #[trigger] after.used[j] <==> after.picked.contains(j as usize)) by {
                        if j == i {
                            assert(after.picked[before.picked.len() as int] == i);
                        } else if before.used[j] {
                            let k = choose|k: int|
                                0 <= k < before.picked.len() && before.picked[k] == j as usize;
                            assert(after.picked[k] == j as usize);
                        } else if after.picked.contains(j as usize) {
                            let k = choose|k: int|
                                0 <= k < after.picked.len() && after.picked[k] == j as usize;
                            assert(k != before.picked.len());
                            assert(before.picked[k] == j as usize);
                        }
                    }
                }
                Some(i)
            },
            None => {
                proof {
                    assert forall|v: usize| v < before.used.len() implies before.picked.contains(
                        v,
                    ) by {
                        assert(before.used[v as int]);
                    }
                    lemma_covering_len(before.picked, before.used.len());
                }
                None
            },
        }
    }
}

/// For each of `size` candidates whether it occurs among `taken`.
pub open spec fn taken_flags(taken: Seq<usize>, size: nat) -> Seq<bool> {
    Seq::new(size, |i: int| taken.contains(i as usize))
}

/// `taken` can be the picks of a selection among `size` candidates: each is a
/// candidate, and none occurs twice.
pub open spec fn is_pick_list(taken: Seq<usize>, size: nat) -> bool {
    &&& taken.no_duplicates()
    &&& forall|k: int| 0 <= k < taken.len() ==> #[trigger] taken[k] < size
}

/// In round `round` of a selection that ended with `picked`, `score` was asked
/// with `taken`, the picks before that round, and answered `scores` for the
/// candidates not picked yet; the pick of the round is the first of them with
/// the highest score.
pub open spec fn round_took_best<F: Fn(&Vec<usize>, usize) -> u64>(
    score: F,
    size: nat,
    picked: Seq<usize>,
    round: int,
    taken: Vec<usize>,
    scores: Seq<u64>,
) -> bool {
    &&& taken@ == picked.take(round)
    &&& scores.len() == size
    &&& forall|i: int|
        0 <= i < size && !taken@.contains(i as usize) ==> call_ensures(
            score,
            (&taken, i as usize),
            #[trigger] scores[i],
        )
    &&& is_best(taken_flags(taken@, size), scores, picked[round] as int)
}

/// Round `round` of a selection that ended with `picked` was a greedy one, for
/// some answers that `score` gave in that round.
pub open spec fn is_greedy_round<F: Fn(&Vec<usize>, usize) -> u64>(
    score: F,
    size: nat,
    picked: Seq<usize>,
    round: int,
) -> bool {
    exists|taken: Vec<usize>, scores: Seq<u64>|
        round_took_best(score, size, picked, round, taken, scores)
}

/// Picks `num` out of `catalog_size` link skills greedily, or all of them where
/// fewer exist, and returns their catalog positions in the order of picking.
///
/// Each round asks `score` for the score of every link skill not picked yet,
/// given the picks made so far, and takes the first one with the highest score.
pub fn find_optimal_links<F: Fn(&Vec<usize>, usize) -> u64>(
    num: usize,
    catalog_size: usize,
    score: F,
) -> (picked: Vec<usize>)
    requires
        forall|taken: &Vec<usize>, candidate: usize|
            is_pick_list(taken@, catalog_size as nat) && candidate < catalog_size
                && !taken@.contains(candidate) ==> #[trigger] call_requires(
                score,
                (taken, candidate),
            ),
    ensures
        picked@.len() == vstd::math::min(num as int, catalog_size as int),
        is_pick_list(picked@, catalog_size as nat),
        forall|round: int|
            0 <= round < picked@.len() ==> #[trigger] is_greedy_round(
                score,
                catalog_size as nat,
                picked@,
                round,
            ),
{
    let mut selector = LinkSelector::new(num, catalog_size);
    let ghost size = catalog_size as nat;
    while !selector.is_done()
        invariant
            selector@.wf(),
            selector@.requested == num,
            selector@.used.len() == catalog_size,
            size == catalog_size,
            forall|taken: &Vec<usize>, candidate: usize|
                is_pick_list(taken@, size) && candidate < catalog_size && !taken@.contains(
                    candidate,
                ) ==> #[trigger] call_requires(score, (taken, candidate)),
            forall|round: int|
                0 <= round < selector@.picked.len() ==> #[trigger] is_greedy_round(
                    score,
                    size,
                    selector@.picked,
                    round,
                ),
        decreases selector@.wanted() - selector@.picked.len(),
    {
        let ghost before = selector@;
        let taken = selector.picked();
        let mut scores: Vec<u64> = Vec::new();
        let mut i: usize = 0;
        while i < catalog_size
            invariant
                i <= catalog_size,
                scores@.len() == i,
                selector@ == before,
                before.wf(),
                before.used.len() == catalog_size,
                size == catalog_size,
                taken@ == before.picked,
                forall|taken: &Vec<usize>, candidate: usize|
                    is_pick_list(taken@, size) && candidate < catalog_size && !taken@.contains(
                        candidate,
                    ) ==> #[trigger] call_requires(score, (taken, candidate)),
                forall|j: int|
                    0 <= j < i && !taken@.contains(j as usize) ==> call_ensures(
                        score,
                        (&taken, j as usize),
                        #[trigger] scores@[j],
                    ),
            decreases catalog_size - i,
        {
            let answer = if selector.is_used(i) {
                0
            } else {
                assert(!before.used[i as int]);
                score(&taken, i)
            };
            scores.push(answer);
            i = i + 1;
        }
        let choice = selector.pick(&scores);
        proof {
            let after = selector@;
            assert(choice is Some);
            assert(taken_flags(taken@, size) =~= before.used);
            assert(after.picked.take(before.picked.len() as int) =~= before.picked);
            assert(round_took_best(
                score,
                size,
                after.picked,
                before.picked.len() as int,
                taken,
                scores@,
            ));
            assert forall|round: int| 0 <= round < after.picked.len() implies #[trigger]
                is_greedy_round(score, size, after.picked, round) by {
                if round < before.picked.len() {
                    assert(is_greedy_round(score, size, before.picked, round));
                    let (t, s) = choose|t: Vec<usize>, s: Seq<u64>|
                        round_took_best(score, size, before.picked, round, t, s);
                    assert(after.picked.take(round) =~= before.picked.take(round));
                    assert(round_took_best(score, size, after.picked, round, t, s));
                }
            }
        }
    }
    selector.picked()
}

/// `score` gives one answer only for each list of picks and each candidate.
pub open spec fn is_deterministic<F: Fn(&Vec<usize>, usize) -> u64>(score: F) -> bool {
    forall|t1: Vec<usize>, t2: Vec<usize>, candidate: usize, s1: u64, s2: u64|
        #![trigger call_ensures(score, (&t1, candidate), s1), call_ensures(score, (&t2, candidate), s2)]
        t1@ == t2@ && call_ensures(score, (&t1, candidate), s1) && call_ensures(
            score,
            (&t2, candidate),
            s2,
        ) ==> s1 == s2
}

/// Two selections whose rounds were all greedy ones, under a score that gives
/// one answer only, agree in their first `n` picks.
proof fn lemma_greedy_prefix<F: Fn(&Vec<usize>, usize) -> u64>(
    score: F,
    size: nat,
    a: Seq<usize>,
    b: Seq<usize>,
    n: int,
)
    requires
        is_deterministic(score),
        0 <= n <= a.len(),
        n <= b.len(),
        forall|round: int| 0 <= round < a.len() ==> #[trigger] is_greedy_round(score, size, a, round),
        forall|round: int| 0 <= round < b.len() ==> #[trigger] is_greedy_round(score, size, b, round),
    ensures
        a.take(n) == b.take(n),
    decreases n,
{
    if n == 0 {
        assert(a.take(0) =~= b.take(0));
    } else {
        let round = n - 1;
        lemma_greedy_prefix(score, size, a, b, round);
        assert(is_greedy_round(score, size, a, round));
        assert(is_greedy_round(score, size, b, round));
        let (ta, sa) = choose|t: Vec<usize>, s: Seq<u64>|
            round_took_best(score, size, a, round, t, s);
        let (tb, sb) = choose|t: Vec<usize>, s: Seq<u64>|
            round_took_best(score, size, b, round, t, s);
        let used = taken_flags(ta@, size);
        assert(taken_flags(tb@, size) == used);
        assert forall|i: int| 0 <= i < size && !used[i] implies sa[i] == sb[i] by {
            assert(call_ensures(score, (&ta, i as usize), sa[i]));
            assert(call_ensures(score, (&tb, i as usize), sb[i]));
        }
        assert(a[round] == b[round]);
        assert(a.take(n) =~= a.take(round).push(a[round]));
        assert(b.take(n) =~= b.take(round).push(b[round]));
    }
}

/// A greedy selection is repeatable: under a score that gives one answer only,
/// two selections of the same length whose rounds were all greedy ones made the
/// same picks in the same order.
pub proof fn lemma_greedy_deterministic<F: Fn(&Vec<usize>, usize) -> u64>(
    score: F,
    size: nat,
    a: Seq<usize>,
    b: Seq<usize>,
)
    requires
        is_deterministic(score),
        a.len() == b.len(),
        forall|round: int| 0 <= round < a.len() ==> #[trigger] is_greedy_round(score, size, a, round),
        forall|round: int| 0 <= round < b.len() ==> #[trigger] is_greedy_round(score, size, b, round),
    ensures
        a == b,
{
    lemma_greedy_prefix(score, size, a, b, a.len() as int);
    assert(a.take(a.len() as int) =~= a);
    assert(b.take(b.len() as int) =~= b);
}

} // verus!
