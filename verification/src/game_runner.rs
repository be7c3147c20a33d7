use vstd::prelude::*;
use crate::classes::Player;
use crate::input::{is_affirmative, spec_is_affirmative};

verus! {

/// Whether the game is over: one of the players has no vitality left.
pub open spec fn spec_game_over(p1: Player, p2: Player) -> bool {
    p1.vitality == 0 || p2.vitality == 0
}

/// Decides from one answer line whether the current turn is replayed: only
/// an affirmative answer replays it.
pub fn re_run_turn(answer: &[u8]) -> (r: bool)
    ensures
        r == spec_is_affirmative(answer@),
{
    is_affirmative(answer)
}

/// Decides from the players and one answer line whether a new round starts:
/// never once either player's vitality is gone, and otherwise only on an
/// affirmative answer.
pub fn re_run_round(p1: &Player, p2: &Player, answer: &[u8]) -> (r: bool)
    ensures
        r == (!spec_game_over(*p1, *p2) && spec_is_affirmative(answer@)),
{
    if p1.vitality == 0 || p2.vitality == 0 {
        false
    } else {
        is_affirmative(answer)
    }
}

} // verus!
