use damage_calc::{best_unused, find_optimal_links, score_key, LinkSelector};

#[test]
fn best_unused_takes_the_highest_score() {
    assert_eq!(best_unused(&vec![false, false, false], &vec![3, 9, 4]), Some(1));
    assert_eq!(best_unused(&vec![false, true, false], &vec![3, 9, 4]), Some(2));
    assert_eq!(best_unused(&vec![false, true, true], &vec![3, 9, 4]), Some(0));
}

#[test]
fn best_unused_breaks_ties_by_position() {
    assert_eq!(best_unused(&vec![false, false, false, false], &vec![5, 7, 7, 7]), Some(1));
    assert_eq!(best_unused(&vec![false, true, false, false], &vec![5, 7, 7, 7]), Some(2));
    assert_eq!(best_unused(&vec![false, false], &vec![0, 0]), Some(0));
    assert_eq!(best_unused(&vec![false, false], &vec![u64::MAX, u64::MAX]), Some(0));
}

#[test]
fn best_unused_without_candidates() {
    assert_eq!(best_unused(&vec![], &vec![]), None);
    assert_eq!(best_unused(&vec![true, true], &vec![1, 2]), None);
}

#[test]
fn selection_picks_in_order_of_score() {
    let mut selector = LinkSelector::new(3, 4);
    assert!(!selector.is_done());
    assert_eq!(selector.pick(&vec![10, 40, 30, 20]), Some(1));
    assert!(selector.is_used(1));
    assert!(!selector.is_used(0));
    assert_eq!(selector.pick(&vec![10, 99, 30, 20]), Some(2));
    assert_eq!(selector.pick(&vec![10, 99, 99, 20]), Some(3));
    assert!(selector.is_done());
    assert_eq!(selector.picked(), vec![1, 2, 3]);
    assert_eq!(selector.pick(&vec![10, 40, 30, 20]), None);
    assert_eq!(selector.picked(), vec![1, 2, 3]);
}

#[test]
fn selection_is_clamped_to_the_catalog() {
    let mut selector = LinkSelector::new(10, 3);
    let scores = vec![1, 1, 1];
    let mut rounds = 0;
    while !selector.is_done() {
        assert!(selector.pick(&scores).is_some());
        rounds += 1;
    }
    assert_eq!(rounds, 3);
    assert_eq!(selector.picked(), vec![0, 1, 2]);
    assert_eq!(selector.pick(&scores), None);
}

#[test]
fn selection_of_nothing() {
    let mut selector = LinkSelector::new(0, 5);
    assert!(selector.is_done());
    assert_eq!(selector.pick(&vec![1, 2, 3, 4, 5]), None);
    assert_eq!(selector.picked(), Vec::<usize>::new());
    let mut empty = LinkSelector::new(4, 0);
    assert!(empty.is_done());
    assert_eq!(empty.pick(&vec![]), None);
    assert!(!empty.is_used(0));
}

#[test]
fn selection_never_repeats_a_pick() {
    let n = 18;
    let mut selector = LinkSelector::new(n, n);
    let scores: Vec<u64> = (0..n as u64).map(|i| (i * 7) % 5).collect();
    while !selector.is_done() {
        selector.pick(&scores);
    }
    let picked = selector.picked();
    assert_eq!(picked.len(), n);
    let mut sorted = picked.clone();
    sorted.sort();
    sorted.dedup();
    assert_eq!(sorted.len(), n);
    for pair in picked.windows(2) {
        let (a, b) = (pair[0], pair[1]);
        assert!(scores[a] > scores[b] || (scores[a] == scores[b] && a < b));
    }
}

#[test]
fn selection_is_repeatable() {
    let scores = vec![vec![4, 4, 2, 9], vec![1, 8, 8, 0], vec![5, 0, 5, 0]];
    let run = |scores: &Vec<Vec<u64>>| {
        let mut selector = LinkSelector::new(3, 4);
        for round in scores {
            selector.pick(round);
        }
        selector.picked()
    };
    assert_eq!(run(&scores), vec![3, 1, 0]);
    assert_eq!(run(&scores), run(&scores));
}

#[test]
fn greedy_selection_by_fixed_scores() {
    let scores = [3u64, 9, 4, 9, 1];
    let score = |_taken: &Vec<usize>, candidate: usize| -> u64 { scores[candidate] };
    assert_eq!(find_optimal_links(3, 5, score), vec![1, 3, 2]);
    assert_eq!(find_optimal_links(5, 5, score), vec![1, 3, 2, 0, 4]);
}

#[test]
fn greedy_selection_length_is_the_smaller_of_both() {
    let score = |_taken: &Vec<usize>, candidate: usize| -> u64 { candidate as u64 };
    for num in 0..8 {
        for size in 0..6 {
            let picked = find_optimal_links(num, size, score);
            assert_eq!(picked.len(), num.min(size));
            let expected: Vec<usize> = (0..size).rev().take(num).collect();
            assert_eq!(picked, expected);
        }
    }
}

#[test]
fn greedy_selection_follows_the_picks_so_far() {
    // A candidate next to the last pick scores double.
    let score = |taken: &Vec<usize>, candidate: usize| -> u64 {
        let base = [5u64, 1, 6, 2, 4][candidate];
        match taken.last() {
            Some(&last) if last + 1 == candidate || candidate + 1 == last => base * 10,
            _ => base,
        }
    };
    assert_eq!(find_optimal_links(4, 5, score), vec![2, 3, 4, 0]);
}

#[test]
fn greedy_selection_asks_only_about_unused_candidates() {
    let score = |taken: &Vec<usize>, candidate: usize| -> u64 {
        assert!(candidate < 6);
        assert!(!taken.contains(&candidate));
        let mut distinct = taken.clone();
        distinct.sort();
        distinct.dedup();
        assert_eq!(distinct.len(), taken.len());
        7
    };
    assert_eq!(find_optimal_links(6, 6, score), vec![0, 1, 2, 3, 4, 5]);
}

#[test]
fn greedy_selection_by_damage() {
    let gains = [0.09f64, 0.10, 0.09, 0.15, 0.085, 0.12];
    let score = |taken: &Vec<usize>, candidate: usize| -> u64 {
        let mut damage = 1.0e9;
        for &link in taken {
            damage *= 1.0 + gains[link];
        }
        score_key((damage * (1.0 + gains[candidate])).to_bits())
    };
    assert_eq!(find_optimal_links(4, 6, score), vec![3, 5, 1, 0]);
    assert_eq!(find_optimal_links(4, 6, score), find_optimal_links(4, 6, score));
}
