//! Shadow correction after a crater, and its per-tick enable flag.
//!
//! After terrain is dug away, a shadow-receiving pixel whose up-right
//! neighbour `(x + 3, y - 3)` is dirt or rock is darkened by four palette
//! steps, and a shadow pixel (164..=167) whose neighbour is no longer solid is
//! lightened by four. The pass runs only when the tick's shadow setting is on;
//! that flag is a value the caller owns and threads through the tick.

use vstd::prelude::*;
use crate::state::{has_flag, lemma_cell_in_range, LevelSim, MAT_DIRT_ROCK, MAT_SEE_SHADOW};

verus! {

/// The tick's shadow setting.
pub struct ShadowFrame {
    on: bool,
}

impl View for ShadowFrame {
    type V = bool;

    closed spec fn view(&self) -> bool {
        self.on
    }
}

impl ShadowFrame {
    /// The flag outside any tick: off.
    pub fn new() -> (r: Self)
        ensures
            !r@,
    {
        ShadowFrame { on: false }
    }
}

/// Opens a tick: publishes the shadow setting.
pub fn begin_frame(frame: &mut ShadowFrame, enabled: bool)
    ensures
        final(frame)@ == enabled,
{
    frame.on = enabled;
}

/// Closes a tick: the flag is off again.
pub fn end_frame(frame: &mut ShadowFrame)
    ensures
        !final(frame)@,
{
    frame.on = false;
}

/// The current tick's flag.
pub fn enabled(frame: &ShadowFrame) -> (r: bool)
    ensures
        r == frame@,
{
    frame.on
}

/// The pass's rectangle `[x1, x2) x [y1, y2)` intersected with
/// `[0, width - 3) x [3, height)`, so that the probe `(x + 3, y - 3)` always
/// lies inside the level.
pub open spec fn shadow_rect(level: LevelSim, x1: i32, y1: i32, x2: i32, y2: i32) -> (int, int, int, int) {
    (
        if x1 < 0 { 0 } else { x1 as int },
        if y1 < 3 { 3 } else { y1 as int },
        if x2 < level.width - 3 { x2 as int } else { level.width - 3 },
        if y2 < level.height { y2 as int } else { level.height as int },
    )
}

/// `(x, y)` lies in the rectangle `(rx1, ry1, rx2, ry2)`.
pub open spec fn in_rect(r: (int, int, int, int), x: int, y: int) -> bool {
    r.0 <= x < r.2 && r.1 <= y < r.3
}

/// The corrected material of the in-bounds pixel `(x, y)` of `level`:
/// darkened by 4 (wrapping in the byte) when it receives shadow and its probe
/// `(x + 3, y - 3)` is inside the level and dirt or rock; lightened by 4 when it
/// is a shadow shade (164..=167) whose probe is not; otherwise unchanged.
pub open spec fn shadow_value(level: LevelSim, x: int, y: int) -> u8 {
    let pix = level.material_id@[level.cell(x, y)];
    let see = has_flag(level.material_flags@[pix as int], MAT_SEE_SHADOW);
    let shaded = level.in_bounds(x + 3, y - 3) && has_flag(level.flags_xy(x + 3, y - 3), MAT_DIRT_ROCK);
    if see && shaded {
        ((pix + 4) % 256) as u8
    } else if 164 <= pix <= 167 && !shaded {
        (pix - 4) as u8
    } else {
        pix
    }
}

/// In-bounds cells with equal row-major indices are the same cell.
pub proof fn lemma_cell_injective(a: int, b: int, x: int, y: int, w: int, h: int)
    requires
        0 <= a < w,
        0 <= x < w,
        0 <= b < h,
        0 <= y < h,
        a + b * w == x + y * w,
    ensures
        a == x,
        b == y,
{
    assert(b == y) by (nonlinear_arith)
        requires 0 <= a < w, 0 <= x < w, a + b * w == x + y * w;
}

/// Applies the shadow correction to every pixel of the rectangle
/// `[x1, x2) x [y1, y2)` clipped by [`shadow_rect`]; every pixel outside it
/// keeps its material. Each corrected pixel is computed from the level as it
/// was before the pass.
pub fn correct_shadow(level: &mut LevelSim, x1: i32, y1: i32, x2: i32, y2: i32)
    requires
        old(level).wf(),
    ensures
        final(level).width == old(level).width,
        final(level).height == old(level).height,
        final(level).material_flags == old(level).material_flags,
        final(level).material_id@.len() == old(level).material_id@.len(),
        forall|x: int, y: int| #[trigger] old(level).in_bounds(x, y) ==>
            final(level).material_id@[old(level).cell(x, y)] == if in_rect(shadow_rect(*old(level), x1, y1, x2, y2), x, y) {
                shadow_value(*old(level), x, y)
            } else {
                old(level).material_id@[old(level).cell(x, y)]
            },
{
    let ghost orig = *level;
    let ghost rect = shadow_rect(orig, x1, y1, x2, y2);
    let cx1 = if x1 < 0 { 0 } else { x1 };
    let cy1 = if y1 < 3 { 3 } else { y1 };
    let cx2 = if x2 < level.width - 3 { x2 } else { level.width - 3 };
    let cy2 = if y2 < level.height { y2 } else { level.height };
    assert(rect == (cx1 as int, cy1 as int, cx2 as int, cy2 as int));
    let mut x = cx1;
    while x < cx2
        invariant
            level.wf(),
            level.width == orig.width,
            level.height == orig.height,
            level.material_flags == orig.material_flags,
            level.material_id@.len() == orig.material_id@.len(),
            orig.wf(),
            rect == (cx1 as int, cy1 as int, cx2 as int, cy2 as int),
            rect == shadow_rect(orig, x1, y1, x2, y2),
            cx1 >= 0,
            cy1 >= 3,
            cx2 <= orig.width - 3,
            cy2 <= orig.height,
            cx1 <= x,
            forall|a: int, b: int| #[trigger] orig.in_bounds(a, b) ==>
                level.material_id@[orig.cell(a, b)] == if in_rect(rect, a, b) && a < x {
                    shadow_value(orig, a, b)
                } else {
                    orig.material_id@[orig.cell(a, b)]
                },
        decreases cx2 - x,
    {
        let mut y = cy1;
        while y < cy2
            invariant
                level.wf(),
                level.width == orig.width,
                level.height == orig.height,
                level.material_flags == orig.material_flags,
                level.material_id@.len() == orig.material_id@.len(),
                orig.wf(),
                rect == (cx1 as int, cy1 as int, cx2 as int, cy2 as int),
                cx1 >= 0,
                cy1 >= 3,
                cx2 <= orig.width - 3,
                cy2 <= orig.height,
                cx1 <= x < cx2,
                cy1 <= y,
                forall|a: int, b: int| #[trigger] orig.in_bounds(a, b) ==>
                    level.material_id@[orig.cell(a, b)] == if in_rect(rect, a, b) && (a < x || (a == x && b < y)) {
                        shadow_value(orig, a, b)
                    } else {
                        orig.material_id@[orig.cell(a, b)]
                    },
            decreases cy2 - y,
        {
            proof {
                lemma_cell_in_range(x as int, y as int, orig.width as int, orig.height as int);
            }
            let idx = (x + y * level.width) as usize;
            let pix = level.material_id[idx];
            let see_shadow = level.material_flags[pix as usize] & MAT_SEE_SHADOW != 0;
            let shaded = level.dirt_rock(x + 3, y - 3);
            proof {
                assert(orig.in_bounds(x as int, y as int));
                assert(pix == orig.material_id@[orig.cell(x as int, y as int)]);
                if orig.in_bounds(x + 3, y - 3) {
                    assert(level.material_id@[orig.cell(x + 3, y - 3)] == orig.material_id@[orig.cell(x + 3, y - 3)]);
                }
            }
            let ghost before = level.material_id@;
            if see_shadow && shaded {
                level.set_material(idx, pix.wrapping_add(4));
            } else if pix >= 164 && pix <= 167 && !shaded {
                level.set_material(idx, pix.wrapping_sub(4));
            }
            proof {
                assert(level.material_id@[idx as int] == shadow_value(orig, x as int, y as int));
                assert forall|a: int, b: int| #[trigger] orig.in_bounds(a, b) implies
                    level.material_id@[orig.cell(a, b)] == if in_rect(rect, a, b) && (a < x || (a == x && b < y + 1)) {
                        shadow_value(orig, a, b)
                    } else {
                        orig.material_id@[orig.cell(a, b)]
                    } by {
                    lemma_cell_in_range(a, b, orig.width as int, orig.height as int);
                    if orig.cell(a, b) == idx as int {
                        lemma_cell_injective(a, b, x as int, y as int, orig.width as int, orig.height as int);
                    } else {
                        assert(level.material_id@[orig.cell(a, b)] == before[orig.cell(a, b)]);
                        if a == x && b == y {
                        }
                    }
                }
            }
            y += 1;
        }
        x += 1;
    }
}

/// [`correct_shadow`] when the tick's shadow flag is on; otherwise the level is
/// unchanged.
pub fn correct_shadow_if_enabled(frame: &ShadowFrame, level: &mut LevelSim, x1: i32, y1: i32, x2: i32, y2: i32)
    requires
        old(level).wf(),
    ensures
        final(level).width == old(level).width,
        final(level).height == old(level).height,
        final(level).material_flags == old(level).material_flags,
        final(level).material_id@.len() == old(level).material_id@.len(),
        forall|x: int, y: int| #[trigger] old(level).in_bounds(x, y) ==>
            final(level).material_id@[old(level).cell(x, y)] == if frame@ && in_rect(shadow_rect(*old(level), x1, y1, x2, y2), x, y) {
                shadow_value(*old(level), x, y)
            } else {
                old(level).material_id@[old(level).cell(x, y)]
            },
{
    if enabled(frame) {
        correct_shadow(level, x1, y1, x2, y2);
    }
}

} // verus!
