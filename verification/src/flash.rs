//! The per-tick screen-flash accumulator.
//!
//! A tick opens the accumulator with the (already decremented) persisted
//! screen flash, every explosion created during the tick raises it to the
//! larger of its current value and the explosion's flash, and the tick closes
//! by reading the result back. The accumulator is a value the caller owns and
//! threads through the tick.

use vstd::prelude::*;

verus! {

/// The larger of `a` and `b`.
pub open spec fn max_i32(a: i32, b: i32) -> i32 {
    if a >= b { a } else { b }
}

/// The running maximum of `seed` and every value of `flashes`, in order.
pub open spec fn running_max(seed: i32, flashes: Seq<i32>) -> i32
    decreases flashes.len(),
{
    if flashes.len() == 0 {
        seed
    } else {
        max_i32(running_max(seed, flashes.drop_last()), flashes.last())
    }
}

/// The screen-flash accumulator of one tick.
pub struct FlashFrame {
    value: i32,
}

impl View for FlashFrame {
    type V = i32;

    closed spec fn view(&self) -> i32 {
        self.value
    }
}

impl FlashFrame {
    /// An accumulator holding 0, the value outside any tick.
    pub fn new() -> (r: Self)
        ensures
            r@ == 0,
    {
        FlashFrame { value: 0 }
    }
}

/// Opens a tick: the accumulator now holds `seed`.
pub fn begin_frame(frame: &mut FlashFrame, seed: i32)
    ensures
        final(frame)@ == seed,
{
    frame.value = seed;
}

/// Raises the accumulator to the larger of its value and `flash`.
pub fn raise(frame: &mut FlashFrame, flash: i32)
    ensures
        final(frame)@ == max_i32(old(frame)@, flash),
{
    if flash > frame.value {
        frame.value = flash;
    }
}

/// The accumulated value; the accumulator keeps it until the next tick opens.
pub fn take_frame(frame: &FlashFrame) -> (r: i32)
    ensures
        r == frame@,
{
    frame.value
}

/// After a tick opened with `seed` and raised by `flashes`, the accumulator
/// holds at least the seed and every flash, and equals one of them.
pub proof fn lemma_running_max_bounds(seed: i32, flashes: Seq<i32>)
    ensures
        running_max(seed, flashes) >= seed,
        forall|k: int| 0 <= k < flashes.len() ==> running_max(seed, flashes) >= #[trigger] flashes[k],
        running_max(seed, flashes) == seed || exists|k: int|
            0 <= k < flashes.len() && running_max(seed, flashes) == #[trigger] flashes[k],
    decreases flashes.len(),
{
    if flashes.len() > 0 {
        let rest = flashes.drop_last();
        lemma_running_max_bounds(seed, rest);
        assert forall|k: int| 0 <= k < flashes.len() implies running_max(seed, flashes) >= #[trigger] flashes[k] by {
            if k < flashes.len() - 1 {
                assert(flashes[k] == rest[k]);
            }
        }
        if running_max(seed, flashes) != seed {
            if running_max(seed, flashes) == flashes.last() {
                assert(flashes[flashes.len() - 1] == flashes.last());
            } else {
                let k = choose|k: int| 0 <= k < rest.len() && running_max(seed, rest) == #[trigger] rest[k];
                assert(flashes[k] == rest[k]);
            }
        }
    }
}

/// Raises commute: the order of two raises within a tick does not matter.
pub proof fn lemma_raise_commutes(v: i32, a: i32, b: i32)
    ensures
        max_i32(max_i32(v, a), b) == max_i32(max_i32(v, b), a),
{
}

} // verus!
