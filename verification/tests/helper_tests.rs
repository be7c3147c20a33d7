use duel::classes::PlayerRes;
use duel::helper::{compute_score, create_goals};

#[test]
fn test_create_goals_zero() {
    // When count is zero, the resulting vector should be empty.
    let goals = create_goals(0);
    assert!(goals.is_empty());
}

#[test]
fn test_create_goals_count() {
    // When a positive count is given, the vector should have that many elements,
    // and every element must be between 0 and 100 (inclusive).
    let count = 10;
    let goals = create_goals(count);
    assert_eq!(goals.len(), count as usize);
    for goal in goals {
        assert!(goal <= 100, "Goal {} is greater than 100", goal);
    }
}

#[test]
fn test_compute_score_perfect_match() {
    // When the goal equals the counter, raw_diff is 0 so base = 100.
    // With no misses, score = (100 + strength) / 1.
    let strength = 20;
    let res = PlayerRes { counter: 50, miss: 0 };
    let goal = 50;
    let expected = (100 + strength) / 1; // 120
    let score = compute_score(goal, &res, strength);
    assert_eq!(score, expected);
}

#[test]
fn test_compute_score_small_difference() {
    // When the difference is small and non-zero (<= 5), base should be 80.
    // For example, goal = 55 and counter = 50 gives raw_diff = 5 (and circ_diff = 5).
    let strength = 10;
    let res = PlayerRes { counter: 50, miss: 0 };
    let goal = 55;
    let expected = (80 + strength) / 1; // 90
    let score = compute_score(goal, &res, strength);
    assert_eq!(score, expected);
}

#[test]
fn test_compute_score_circular_difference() {
    // When the raw difference is large, the circular difference applies.
    // For example, goal = 10 and counter = 90 gives raw_diff = 80,
    // so circ_diff = 100 - 80 = 20, thus base should be 40.
    let strength = 15;
    let res = PlayerRes { counter: 90, miss: 0 };
    let goal = 10;
    let expected = (40 + strength) / 1; // 55
    let score = compute_score(goal, &res, strength);
    assert_eq!(score, expected);
}

#[test]
fn test_compute_score_with_misses() {
    // When there are misses, the final score should be divided by (miss + 1).
    // For example, with goal = 50, counter = 50 (perfect match) and miss = 2:
    // score = (100 + strength) / (2 + 1)
    let strength = 30;
    let res = PlayerRes { counter: 50, miss: 2 };
    let goal = 50;
    let expected = (100 + strength) / 3; // (130 / 3) = 43 (integer division)
    let score = compute_score(goal, &res, strength);
    assert_eq!(score, expected);
}

#[test]
fn test_circ_diff_symmetry_concrete() {
    // The circular distance is symmetric: goal 10 against counter 90 scores
    // the same as goal 90 against counter 10.
    let a = PlayerRes { counter: 90, miss: 0 };
    let b = PlayerRes { counter: 10, miss: 0 };
    assert_eq!(compute_score(10, &a, 0), compute_score(90, &b, 0));
}

#[test]
fn test_wraparound_adjacency() {
    // 0 and 100 are adjacent on the circle: stopping at 100 with goal 0 is a
    // perfect match.
    let res = PlayerRes { counter: 100, miss: 0 };
    assert_eq!(compute_score(0, &res, 0), 100);
}

#[test]
fn test_antipodal_point() {
    // A circular distance of exactly 50 falls in the lowest base bucket.
    let res = PlayerRes { counter: 50, miss: 0 };
    assert_eq!(compute_score(0, &res, 0), 20);
}

#[test]
fn test_one_more_miss_never_increases_score() {
    // Increasing the miss count by one never increases the score.
    for miss in 0..5u32 {
        let fewer = PlayerRes { counter: 48, miss };
        let more = PlayerRes { counter: 48, miss: miss + 1 };
        assert!(compute_score(50, &more, 30) <= compute_score(50, &fewer, 30));
    }
}
