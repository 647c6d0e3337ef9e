//! The end-of-match test.

use vstd::prelude::*;
use crate::state::SimState;

verus! {

/// Whether the match has ended: in kill-em-all (0) and scales of justice (3)
/// once some worm has no lives left; in game of tag (1) and hold-a-zone (2) once
/// some worm's timer has reached the time limit; in any other mode never.
pub open spec fn spec_game_over(state: SimState) -> bool {
    if state.game_mode == 0 || state.game_mode == 3 {
        exists|i: int| 0 <= i < state.worms@.len() && #[trigger] state.worms@[i].lives <= 0
    } else if state.game_mode == 1 || state.game_mode == 2 {
        exists|i: int| 0 <= i < state.worms@.len() && #[trigger] state.worms@[i].timer >= state.time_to_lose
    } else {
        false
    }
}

/// The match ends exactly at its limit: in kill-em-all and scales of justice
/// a worm whose lives reach 0 ends it, while worms with a life left each keep
/// it going; in game of tag and hold-a-zone a worm whose timer reaches the
/// time limit ends it, while timers below the limit keep it going; other
/// modes never end.
pub proof fn law_game_over_at_the_limit(state: SimState, i: int)
    requires
        0 <= i < state.worms@.len(),
    ensures
        (state.game_mode == 0 || state.game_mode == 3) && state.worms@[i].lives == 0 ==> spec_game_over(state),
        (state.game_mode == 0 || state.game_mode == 3) && (forall|j: int| 0 <= j < state.worms@.len()
            ==> #[trigger] state.worms@[j].lives >= 1) ==> !spec_game_over(state),
        (state.game_mode == 1 || state.game_mode == 2) && state.worms@[i].timer == state.time_to_lose
            ==> spec_game_over(state),
        (state.game_mode == 1 || state.game_mode == 2) && (forall|j: int| 0 <= j < state.worms@.len()
            ==> #[trigger] state.worms@[j].timer < state.time_to_lose) ==> !spec_game_over(state),
        state.game_mode > 3 ==> !spec_game_over(state),
{
}

/// Whether the match has ended.
pub fn is_game_over(state: &SimState) -> (r: bool)
    ensures
        r == spec_game_over(*state),
{
    let lives_mode = state.game_mode == 0 || state.game_mode == 3;
    let timer_mode = state.game_mode == 1 || state.game_mode == 2;
    if !lives_mode && !timer_mode {
        return false;
    }
    let mut i: usize = 0;
    while i < state.worms.len()
        invariant
            i <= state.worms@.len(),
            lives_mode == (state.game_mode == 0 || state.game_mode == 3),
            timer_mode == (state.game_mode == 1 || state.game_mode == 2),
            lives_mode || timer_mode,
            lives_mode ==> forall|j: int| 0 <= j < i ==> (#[trigger] state.worms@[j]).lives > 0,
            !lives_mode ==> forall|j: int| 0 <= j < i ==> (#[trigger] state.worms@[j]).timer < state.time_to_lose,
        decreases state.worms.len() - i,
    {
        let w = &state.worms[i];
        if lives_mode {
            if w.lives <= 0 {
                return true;
            }
        } else if w.timer >= state.time_to_lose {
            return true;
        }
        i += 1;
    }
    false
}

} // verus!
