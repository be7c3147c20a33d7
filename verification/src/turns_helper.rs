use vstd::prelude::*;
use vstd::arithmetic::div_mod::{
    lemma_div_decreases, lemma_fundamental_div_mod, lemma_fundamental_div_mod_converse,
    lemma_mod_bound, lemma_multiply_divide_lt,
};
use crate::classes::{Player, PlayerRes};
use crate::helper::{compute_score, lemma_score_bounds, spec_score};
use crate::input::{spec_is_token, spec_trim, single_trimmed_byte};

verus! {

/// The byte value of the digit `1`, the penalty choice that lowers speed.
pub const CHOICE_SPEED: u8 = 49;

/// The byte value of the digit `2`, the penalty choice that lowers strength.
pub const CHOICE_STRENGTH: u8 = 50;

/// Subtraction on u32 that stops at zero instead of going negative.
pub open spec fn spec_sat_sub(a: u32, b: u32) -> u32 {
    if a >= b {
        (a - b) as u32
    } else {
        0u32
    }
}

/// Advances the counter by one step: it increments by one, and when it would
/// exceed 100 it wraps to 0 and one miss is recorded.
pub fn tick(counter: u8, miss: u32) -> (r: (u8, u32))
    requires
        counter <= 100,
        miss < u32::MAX,
    ensures
        r.0 <= 100,
        r.1 >= miss,
        counter < 100 ==> r.0 == counter + 1 && r.1 == miss,
        counter == 100 ==> r.0 == 0 && r.1 == miss + 1,
{
    let next = counter + 1;
    if next > 100 {
        (0, miss + 1)
    } else {
        (next, miss)
    }
}

proof fn lemma_tick_step(i: int)
    requires
        0 <= i,
    ensures
        i % 101 == 100 ==> (i + 1) % 101 == 0 && (i + 1) / 101 == i / 101 + 1,
        i % 101 < 100 ==> (i + 1) % 101 == i % 101 + 1 && (i + 1) / 101 == i / 101,
        0 <= i % 101 <= 100,
        0 <= i / 101 <= i,
{
    lemma_fundamental_div_mod(i, 101);
    let q = i / 101;
    let r = i % 101;
    if r == 100 {
        lemma_fundamental_div_mod_converse(i + 1, 101, q + 1, 0);
    } else {
        lemma_fundamental_div_mod_converse(i + 1, 101, q, r + 1);
    }
    if i > 0 {
        lemma_div_decreases(i, 101);
    }
}

/// Runs one objective of the counter engine for a given number of ticks,
/// starting from a fresh state: the counter ends at the tick count modulo
/// 101, and a miss is recorded for each completed wrap past 100.
pub fn run_one_turn(ticks: u32) -> (res: PlayerRes)
    ensures
        res.counter <= 100,
        res.counter as int == ticks as int % 101,
        res.miss as int == ticks as int / 101,
{
    let mut counter: u8 = 0;
    let mut miss: u32 = 0;
    let mut i: u32 = 0;
    while i < ticks
        invariant
            i <= ticks,
            counter <= 100,
            counter as int == i as int % 101,
            miss as int == i as int / 101,
        decreases ticks - i,
    {
        proof {
            lemma_tick_step(i as int);
        }
        let r = tick(counter, miss);
        counter = r.0;
        miss = r.1;
        i = i + 1;
    }
    PlayerRes { counter, miss }
}

/// Whether a turn's goals and engine results are well formed: one result per
/// goal, every goal and every stopped counter on the 0..=100 scale, and
/// attribute values the arithmetic can take.
pub open spec fn spec_turn_valid(goals: Seq<u8>, results: Seq<PlayerRes>, strength: u32) -> bool {
    &&& goals.len() == results.len()
    &&& forall|i: int| 0 <= i < goals.len() ==> goals[i] <= 100
    &&& forall|i: int| 0 <= i < results.len() ==> (#[trigger] results[i]).counter <= 100
    &&& forall|i: int| 0 <= i < results.len() ==> (#[trigger] results[i]).miss < u32::MAX
    &&& strength <= u32::MAX - 100
}

/// The sum of the objective scores of one turn.
pub open spec fn spec_turn_sum(goals: Seq<u8>, results: Seq<PlayerRes>, strength: int) -> int
    decreases goals.len(),
{
    if goals.len() == 0 {
        0
    } else {
        spec_turn_sum(goals.drop_last(), results.drop_last(), strength) + spec_score(
            goals.last() as int,
            results.last().counter as int,
            results.last().miss as int,
            strength,
        )
    }
}

/// Division rounding up: the least integer at or above the real quotient.
pub open spec fn spec_ceil_div(a: int, b: int) -> int {
    (a + b - 1) / b
}

/// `spec_ceil_div(a, b)` is the ceiling of the real quotient of `a` by `b`:
/// `b` of it reaches `a`, and `b` of anything smaller does not.
pub proof fn lemma_ceil_div_is_ceiling(a: int, b: int)
    requires
        0 <= a,
        1 <= b,
    ensures
        b * spec_ceil_div(a, b) >= a,
        b * (spec_ceil_div(a, b) - 1) < a,
{
    lemma_fundamental_div_mod(a + b - 1, b);
    lemma_mod_bound(a + b - 1, b);
    let q = spec_ceil_div(a, b);
    let r = (a + b - 1) % b;
    assert(b * q == a + b - 1 - r);
    assert(b * (q - 1) == b * q - b) by (nonlinear_arith);
}

/// The average score of one turn: the score sum divided by the number of
/// goals, rounded up; 0 when there are no goals.
pub open spec fn spec_turn_avg(goals: Seq<u8>, results: Seq<PlayerRes>, strength: int) -> int {
    if goals.len() == 0 {
        0
    } else {
        spec_ceil_div(spec_turn_sum(goals, results, strength), goals.len() as int)
    }
}

/// Each prefix of a turn keeps its score sum between zero and the number of
/// objectives seen so far times the largest possible objective score.
proof fn lemma_turn_sum_bounds(goals: Seq<u8>, results: Seq<PlayerRes>, strength: u32)
    requires
        spec_turn_valid(goals, results, strength),
    ensures
        0 <= spec_turn_sum(goals, results, strength as int),
        spec_turn_sum(goals, results, strength as int) <= goals.len() * (100 + strength as int),
    decreases goals.len(),
{
    if goals.len() > 0 {
        let gs = goals.drop_last();
        let rs = results.drop_last();
        assert(spec_turn_valid(gs, rs, strength));
        lemma_turn_sum_bounds(gs, rs, strength);
        lemma_score_bounds(
            goals.last() as int,
            results.last().counter as int,
            results.last().miss as int,
            strength as int,
        );
        let k = goals.len() as int;
        let c = 100 + strength as int;
        assert(k * c == (k - 1) * c + c) by (nonlinear_arith);
        assert(gs.len() as int == k - 1);
    }
}

/// Computes a player's average score for one turn from the goals of the turn
/// and the engine result obtained for each goal.
pub fn play_turn(player: &Player, goals: &Vec<u8>, results: &Vec<PlayerRes>) -> (avg: u32)
    requires
        spec_turn_valid(goals@, results@, player.strength),
        goals@.len() <= 255,
    ensures
        avg as int == spec_turn_avg(goals@, results@, player.strength as int),
        goals@.len() == 0 ==> avg == 0,
        avg as int <= 100 + player.strength as int,
{
    let n = goals.len();
    let ghost big = 100 + player.strength as int;
    let mut sum: u64 = 0;
    let mut i: usize = 0;
    proof {
        assert(goals@.take(0) =~= Seq::<u8>::empty());
        assert(results@.take(0) =~= Seq::<PlayerRes>::empty());
    }
    while i < n
        invariant
            spec_turn_valid(goals@, results@, player.strength),
            n == goals@.len(),
            n <= 255,
            i <= n,
            sum as int == spec_turn_sum(
                goals@.take(i as int),
                results@.take(i as int),
                player.strength as int,
            ),
            big == 100 + player.strength as int,
            sum as int <= i as int * big,
        decreases n - i,
    {
        let score = compute_score(goals[i], &results[i], player.strength);
        proof {
            let gs = goals@.take(i as int + 1);
            let rs = results@.take(i as int + 1);
            assert(gs.drop_last() =~= goals@.take(i as int));
            assert(rs.drop_last() =~= results@.take(i as int));
            assert(gs.last() == goals@[i as int]);
            assert(rs.last() == results@[i as int]);
            lemma_score_bounds(
                goals@[i as int] as int,
                results@[i as int].counter as int,
                results@[i as int].miss as int,
                player.strength as int,
            );
            assert((i as int + 1) * big == i as int * big + big) by (nonlinear_arith);
            assert(i as int * big <= 255 * big) by (nonlinear_arith)
                requires 0 <= i as int <= 255, 0 <= big;
        }
        sum = sum + score as u64;
        i = i + 1;
    }
    proof {
        assert(goals@.take(n as int) =~= goals@);
        assert(results@.take(n as int) =~= results@);
    }
    if n == 0 {
        0
    } else {
        proof {
            assert(n as int * big <= 255 * big) by (nonlinear_arith)
                requires 0 < n as int <= 255, 0 <= big;
            assert(sum as int + n as int - 1 < n as int * (big + 1)) by (nonlinear_arith)
                requires
                    0 < n as int,
                    sum as int <= n as int * big;
            lemma_multiply_divide_lt(sum as int + n as int - 1, n as int, big + 1);
            assert((sum as int + n as int - 1) / n as int >= 0) by (nonlinear_arith)
                requires 0 < n as int, 0 <= sum as int;
        }
        let avg64 = (sum + n as u64 - 1) / (n as u64);
        avg64 as u32
    }
}

/// Two players with the same strength whose turns saw the same goals and the
/// same engine outcomes get the same turn average, so the round between them
/// is a tie and `play_round` leaves both players unchanged.
pub proof fn lemma_identical_outcomes_tie(
    goals: Seq<u8>,
    results: Seq<PlayerRes>,
    p1: Player,
    p2: Player,
)
    requires
        p1.strength == p2.strength,
    ensures
        spec_turn_avg(goals, results, p1.strength as int) == spec_turn_avg(
            goals,
            results,
            p2.strength as int,
        ),
{
}

/// The player after the penalty named by the (trimmed) choice line: choice
/// `1` lowers speed by 5, choice `2` lowers strength by 5, and anything else
/// leaves the player unchanged. Vitality and name are never touched.
pub open spec fn spec_punished(p: Player, choice: Seq<u8>) -> Player {
    if spec_is_token(choice, CHOICE_SPEED) {
        Player { speed: spec_sat_sub(p.speed, 5), ..p }
    } else if spec_is_token(choice, CHOICE_STRENGTH) {
        Player { strength: spec_sat_sub(p.strength, 5), ..p }
    } else {
        p
    }
}

/// Applies the penalty chosen for the round loser, reading the choice from
/// one line of input handed in as bytes.
pub fn apply_pusnishment(victim: &mut Player, choice: &[u8])
    ensures
        *final(victim) == spec_punished(*old(victim), choice@),
        final(victim).vitality == old(victim).vitality,
        final(victim).name == old(victim).name,
{
    match single_trimmed_byte(choice) {
        Some(b) => {
            if b == CHOICE_SPEED {
                victim.speed = victim.speed.saturating_sub(5);
            } else if b == CHOICE_STRENGTH {
                victim.strength = victim.strength.saturating_sub(5);
            }
            proof {
                assert(seq![b].len() == 1 && seq![b][0] == b);
                if spec_is_token(choice@, CHOICE_SPEED) {
                    assert(spec_trim(choice@)[0] == CHOICE_SPEED);
                }
                if spec_is_token(choice@, CHOICE_STRENGTH) {
                    assert(spec_trim(choice@)[0] == CHOICE_STRENGTH);
                }
            }
        },
        None => {
            proof {
                assert(seq![CHOICE_SPEED].len() == 1);
                assert(seq![CHOICE_STRENGTH].len() == 1);
            }
        },
    }
}

/// The round loser after the round: vitality lowered by the score
/// difference, stopping at zero, and then the chosen penalty applied.
pub open spec fn spec_round_loser(p: Player, diff: u32, choice: Seq<u8>) -> Player {
    spec_punished(Player { vitality: spec_sat_sub(p.vitality, diff), ..p }, choice)
}

/// Resolves one round from the two players' average scores: equal averages
/// leave both players unchanged; otherwise the loser's vitality drops by the
/// difference, stopping at zero, and the chosen penalty is applied to the
/// loser. The winner is never changed, and no player's name or vitality can
/// grow.
pub fn play_round(p1: &mut Player, p2: &mut Player, avg1: u32, avg2: u32, choice: &[u8])
    ensures
        avg1 == avg2 ==> *final(p1) == *old(p1) && *final(p2) == *old(p2),
        avg1 > avg2 ==> *final(p1) == *old(p1) && *final(p2) == spec_round_loser(
            *old(p2),
            (avg1 - avg2) as u32,
            choice@,
        ),
        avg1 < avg2 ==> *final(p2) == *old(p2) && *final(p1) == spec_round_loser(
            *old(p1),
            (avg2 - avg1) as u32,
            choice@,
        ),
        final(p1).name == old(p1).name,
        final(p2).name == old(p2).name,
        final(p1).vitality <= old(p1).vitality,
        final(p2).vitality <= old(p2).vitality,
{
    if avg1 == avg2 {
        // A tie: no vitality change and no penalty.
    } else if avg1 > avg2 {
        let diff = avg1 - avg2;
        p2.vitality = p2.vitality.saturating_sub(diff);
        apply_pusnishment(p2, choice);
    } else {
        let diff = avg2 - avg1;
        p1.vitality = p1.vitality.saturating_sub(diff);
        apply_pusnishment(p1, choice);
    }
}

} // verus!
