use vstd::prelude::*;
use vstd::arithmetic::div_mod::lemma_div_is_ordered_by_denominator;
use crate::classes::PlayerRes;
use rand::Rng;

verus! {

/// The absolute difference between a goal and a stopped counter.
pub open spec fn spec_raw_diff(goal: int, counter: int) -> int {
    if goal >= counter {
        goal - counter
    } else {
        counter - goal
    }
}

/// The circular distance between a goal and a counter on the 0..=100 scale,
/// where 0 and 100 are adjacent.
pub open spec fn spec_circ_diff(goal: int, counter: int) -> int {
    let raw = spec_raw_diff(goal, counter);
    if raw > 50 {
        100 - raw
    } else {
        raw
    }
}

/// The base score awarded for a given circular distance.
pub open spec fn spec_base(diff: int) -> int {
    if diff == 0 {
        100
    } else if diff <= 5 {
        80
    } else if diff <= 10 {
        60
    } else if diff <= 20 {
        40
    } else {
        20
    }
}

/// The score for one objective: the base score plus the player's strength,
/// divided by one more than the number of misses.
pub open spec fn spec_score(goal: int, counter: int, miss: int, strength: int) -> int {
    (spec_base(spec_circ_diff(goal, counter)) + strength) / (miss + 1)
}

/// The circular distance is symmetric in its arguments and never exceeds
/// half the scale.
pub proof fn lemma_circ_diff_symmetric(goal: int, counter: int)
    requires
        0 <= goal <= 100,
        0 <= counter <= 100,
    ensures
        spec_circ_diff(goal, counter) == spec_circ_diff(counter, goal),
        0 <= spec_circ_diff(goal, counter) <= 50,
{
}

/// Stopping exactly on the goal with no misses scores the full base of 100
/// plus the player's strength.
pub proof fn lemma_perfect_match_score(goal: int, strength: int)
    requires
        0 <= goal <= 100,
        0 <= strength,
    ensures
        spec_score(goal, goal, 0, strength) == 100 + strength,
{
}

/// The score with `miss` misses is the zero-miss score divided by `miss + 1`,
/// and one more miss never increases the score.
pub proof fn lemma_miss_scales_score(goal: int, counter: int, miss: int, strength: int)
    requires
        0 <= goal <= 100,
        0 <= counter <= 100,
        0 <= miss,
        0 <= strength,
    ensures
        spec_score(goal, counter, miss, strength)
            == spec_score(goal, counter, 0, strength) / (miss + 1),
        spec_score(goal, counter, miss + 1, strength)
            <= spec_score(goal, counter, miss, strength),
{
    let b = spec_base(spec_circ_diff(goal, counter)) + strength;
    lemma_div_is_ordered_by_denominator(b, miss + 1, miss + 2);
}

/// Every score is non-negative, and with no misses it is at most
/// 100 plus the player's strength.
pub proof fn lemma_score_bounds(goal: int, counter: int, miss: int, strength: int)
    requires
        0 <= goal <= 100,
        0 <= counter <= 100,
        0 <= miss,
        0 <= strength,
    ensures
        0 <= spec_score(goal, counter, miss, strength) <= 100 + strength,
{
    let b = spec_base(spec_circ_diff(goal, counter)) + strength;
    lemma_div_is_ordered_by_denominator(b, 1, miss + 1);
}

/// Computes the score for one objective from the goal, the objective result,
/// and the player's strength.
pub fn compute_score(goal: u8, res: &PlayerRes, strength: u32) -> (score: u32)
    requires
        goal <= 100,
        res.counter <= 100,
        strength <= u32::MAX - 100,
        res.miss < u32::MAX,
    ensures
        score == spec_score(goal as int, res.counter as int, res.miss as int, strength as int),
{
    let raw_diff: u8 = if goal >= res.counter {
        goal - res.counter
    } else {
        res.counter - goal
    };

    let circ_diff: u8 = if raw_diff > 50 {
        100 - raw_diff
    } else {
        raw_diff
    };

    let base: u32 = if circ_diff == 0 {
        100
    } else if circ_diff <= 5 {
        80
    } else if circ_diff <= 10 {
        60
    } else if circ_diff <= 20 {
        40
    } else {
        20
    };

    (base + strength) / (res.miss + 1)
}

/// Relies on rand's `Rng::gen_range`: a sample from the inclusive range
/// `0..=100` lies in that range.
#[verifier::external_body]
fn random_goal() -> (g: u8)
    ensures
        g <= 100,
{
    rand::thread_rng().gen_range(0..=100)
}

/// Generates `count` goals, each drawn uniformly from 0 to 100 inclusive.
pub fn create_goals(count: u8) -> (goals: Vec<u8>)
    ensures
        goals@.len() == count as int,
        forall|i: int| 0 <= i < goals@.len() ==> goals@[i] <= 100,
{
    let mut goals: Vec<u8> = Vec::new();
    let mut i: u8 = 0;
    while i < count
        invariant
            i <= count,
            goals@.len() == i as int,
            forall|j: int| 0 <= j < goals@.len() ==> goals@[j] <= 100,
        decreases count - i,
    {
        let g = random_goal();
        goals.push(g);
        i = i + 1;
    }
    goals
}

} // verus!
