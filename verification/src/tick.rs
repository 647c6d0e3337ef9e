//! The end of a tick's object phase: the blood particles move, the tick count
//! advances, and the bonus drop is rolled.

use vstd::prelude::*;
use crate::bobject::{blood_walk, process_bobjects, BloodWalkState};
use crate::bonus::bonus_drop_roll;
use crate::draws::{tape_bound, Draws};
use crate::state::SimState;
use vstd::wrapping::i32_specs::wrapping_add;

verus! {

/// Closes the object phase of a tick, in the game's order: every blood
/// particle takes its tick ([`blood_walk`], reading its draws first), then
/// the tick count advances by one (wrapping), then the bonus drop is rolled
/// on the draws that follow; the result says whether a bonus must now be
/// created. The roll draws only when drops are enabled and the bonus limit is
/// positive. Nothing else in the state changes.
pub fn finish_object_phase(state: &mut SimState, draws: &mut Draws) -> (drop: bool)
    requires
        old(state).bobjects.wf(),
        old(state).level.wf(),
        old(draws).wf(),
    ensures
        final(state).bobjects.wf(),
        final(state).bobjects.cap() == old(state).bobjects.cap(),
        final(state).level.wf(),
        final(draws).wf(),
        *final(state) == (SimState {
            bobjects: final(state).bobjects,
            level: final(state).level,
            cycles: wrapping_add(old(state).cycles, 1),
            ..*old(state)
        }),
        exists|chain: Seq<BloodWalkState>, mid: BloodWalkState| {
            &&& #[trigger] blood_walk(
                old(state).bobj_gravity,
                (BloodWalkState { run: old(state).bobjects@, cursor: 0, level: old(state).level, tape: old(draws)@ }),
                mid,
                chain,
            )
            &&& mid.run == final(state).bobjects@
            &&& mid.cursor == final(state).bobjects@.len()
            &&& mid.level == final(state).level
            &&& if old(state).h_bonus_disable || old(state).settings_max_bonuses <= 0 {
                !drop && final(draws)@ == mid.tape
            } else {
                let (v, t) = tape_bound(mid.tape, old(state).bonus_drop_chance as u32);
                drop == (v == 0) && final(draws)@ == t
            }
        },
{
    let ghost s0 = *state;
    let ghost t0 = draws@;
    process_bobjects(&mut state.bobjects, &mut state.level, state.bobj_gravity, draws);
    let ghost t1 = draws@;
    state.cycles = state.cycles.wrapping_add(1);
    let drop = bonus_drop_roll(state.h_bonus_disable, state.settings_max_bonuses, state.bonus_drop_chance, draws);
    proof {
        let mid = BloodWalkState {
            run: state.bobjects@,
            cursor: state.bobjects@.len() as int,
            level: state.level,
            tape: t1,
        };
        let chain = choose|chain: Seq<BloodWalkState>| #[trigger] blood_walk(
            s0.bobj_gravity,
            (BloodWalkState { run: s0.bobjects@, cursor: 0, level: s0.level, tape: t0 }),
            mid,
            chain,
        );
        assert(blood_walk(
            s0.bobj_gravity,
            (BloodWalkState { run: s0.bobjects@, cursor: 0, level: s0.level, tape: t0 }),
            mid,
            chain,
        ));
    }
    drop
}

} // verus!
