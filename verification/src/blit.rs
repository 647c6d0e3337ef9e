//! Terrain destruction: stamping a 16x16 dirt effect into the level.
//!
//! A dirt effect walks a *mask* sprite, whose cell values select an action,
//! and for the fill actions copies texels from a *fill* sprite tiled in level
//! coordinates. The window is clipped against `[0, width) x [0, height - 1)`:
//! the bottom row of the level is never touched. Each level cell is visited at
//! most once, so every write is decided from the level as it was before.

use vstd::prelude::*;
use crate::state::{has_flag, lemma_cell_in_range, LevelSim, MAT_BACKGROUND, MAT_DIRT, MAT_DIRT2};
use crate::shadow::lemma_cell_injective;

verus! {

/// A bank of equally sized sprites stored frame after frame, each frame
/// row-major.
#[derive(Clone, PartialEq, Eq, Debug)]
pub struct SpriteSet {
    pub width: i32,
    pub height: i32,
    pub count: i32,
    pub data: Vec<u8>,
}

impl SpriteSet {
    /// Bytes per frame.
    pub open spec fn frame_len(&self) -> int {
        self.width * self.height
    }

    /// Non-negative dimensions and exactly `count` frames of data.
    pub open spec fn wf(&self) -> bool {
        &&& 0 <= self.width
        &&& 0 <= self.height
        &&& 0 <= self.count
        &&& self.data@.len() == self.count * self.frame_len()
    }

    /// Byte `k` of frame `frame`.
    pub open spec fn texel(&self, frame: int, k: int) -> u8 {
        self.data@[frame * self.frame_len() + k]
    }

    /// The bytes of frame `frame`.
    pub open spec fn frame_bytes(&self, frame: int) -> Seq<u8> {
        self.data@.subrange(frame * self.frame_len(), frame * self.frame_len() + self.frame_len())
    }

    /// The bytes of frame `frame` ([`Self::frame_bytes`]).
    pub fn sprite(&self, frame: usize) -> (r: &[u8])
        requires
            self.wf(),
            frame < self.count,
        ensures
            r@ == self.frame_bytes(frame as int),
    {
        let ghost fl = self.frame_len();
        assert((frame + 1) * fl <= self.count * fl) by (nonlinear_arith)
            requires 0 <= frame < self.count, 0 <= fl;
        assert(0 <= frame * fl) by (nonlinear_arith)
            requires 0 <= frame, 0 <= fl;
        assert((frame + 1) * fl == frame * fl + fl) by (nonlinear_arith);
        assert(fl <= self.count * fl) by (nonlinear_arith)
            requires 0 <= frame < self.count, 0 <= fl;
        let n = self.data.len();
        assert(n == self.data@.len());
        let flen = (self.width as usize) * (self.height as usize);
        let start = frame * flen;
        vstd::slice::slice_subrange(self.data.as_slice(), start, start + flen)
    }

    /// Byte `k` of frame `frame`.
    pub fn texel_at(&self, frame: i32, k: usize) -> (r: u8)
        requires
            self.wf(),
            0 <= frame < self.count,
            k < self.frame_len(),
        ensures
            r == self.texel(frame as int, k as int),
    {
        let ghost fl = self.frame_len();
        assert(frame * fl + k < self.count * fl) by (nonlinear_arith)
            requires 0 <= frame < self.count, 0 <= k < fl;
        assert(0 <= frame * fl) by (nonlinear_arith)
            requires 0 <= frame, 0 <= fl;
        assert(self.width * self.height <= self.count * fl) by (nonlinear_arith)
            requires 0 <= frame < self.count, fl == self.width * self.height, 0 <= fl;
        let n = self.data.len();
        assert(self.width * self.height <= n);
        let flen = (self.width as usize) * (self.height as usize);
        assert(flen == fl);
        assert(frame * flen + k < n);
        self.data[(frame as usize) * flen + k]
    }
}

/// A dirt effect: the fill frame is `sframe` plus a draw below `rframe`, the
/// mask frame is `mframe`; `ndrawback` selects carving over dirt instead of
/// painting over background.
#[derive(Clone, Copy, PartialEq, Eq, Debug)]
pub struct Texture {
    pub sframe: i32,
    pub rframe: i32,
    pub mframe: i32,
    pub ndrawback: bool,
}

/// The clipped 16x16 window at `(x, y)`: `(x1, y1, x2, y2)`.
pub open spec fn dirt_window(level: LevelSim, x: int, y: int) -> (int, int, int, int) {
    (
        if x < 0 { 0 } else { x },
        if y < 0 { 0 } else { y },
        if x + 16 < level.width { x + 16 } else { level.width as int },
        if y + 16 < level.height - 1 { y + 16 } else { level.height - 1 },
    )
}

/// `(mx, my)` lies in the clipped window at `(x, y)`.
pub open spec fn in_dirt_window(level: LevelSim, x: int, y: int, mx: int, my: int) -> bool {
    let (x1, y1, x2, y2) = dirt_window(level, x, y);
    x1 <= mx < x2 && y1 <= my < y2
}

/// The new material of the in-window cell `(mx, my)` when the effect with
/// mask frame `tex.mframe` and fill frame `fill` is stamped at `(x, y)`.
pub open spec fn carved(level: LevelSim, sp: SpriteSet, tex: Texture, fill: int, x: int, y: int, mx: int, my: int) -> u8 {
    let old = level.material_id@[level.cell(mx, my)];
    let f = level.flags_xy(mx, my);
    let c = sp.texel(tex.mframe as int, (my - y) * 16 + (mx - x));
    let t = sp.texel(fill, (my % 16) * 16 + mx % 16);
    if tex.ndrawback {
        if c == 6 {
            if has_flag(f, MAT_DIRT | MAT_DIRT2) { t } else { old }
        } else if c == 1 {
            if has_flag(f, MAT_DIRT2) {
                2
            } else if has_flag(f, MAT_DIRT) {
                1
            } else {
                old
            }
        } else {
            old
        }
    } else {
        if c == 10 || c == 6 {
            if has_flag(f, MAT_BACKGROUND) { t } else { old }
        } else if c == 2 {
            if has_flag(f, MAT_BACKGROUND) { 2 } else { old }
        } else if c == 1 {
            if has_flag(f, MAT_BACKGROUND) { 1 } else { old }
        } else {
            old
        }
    }
}

/// Dirt effect `dirt_effect` can be stamped from `large_sprites`: the effect
/// exists, the sprites are well formed 16x16-or-larger frames, and the mask
/// frame and every fill frame `sframe + draw` (a draw below `rframe`, or 0 when
/// `rframe` is 0) exist.
pub open spec fn crater_ok(large_sprites: SpriteSet, textures: Seq<Texture>, dirt_effect: i32) -> bool {
    let tex = textures[dirt_effect as int];
    &&& large_sprites.wf()
    &&& large_sprites.frame_len() >= 256
    &&& 0 <= dirt_effect < textures.len()
    &&& 0 <= tex.mframe < large_sprites.count
    &&& 0 <= tex.sframe < large_sprites.count
    &&& 0 <= tex.rframe
    &&& tex.sframe + tex.rframe <= large_sprites.count
}

/// `after` is `before` with the effect `tex` stamped with its window at
/// `(x, y)` and fill frame `fill` when `on`, and `before` unchanged otherwise:
/// same size and flags, every in-window cell [`carved`] from `before`, every
/// other cell as it was.
pub open spec fn cratered(before: LevelSim, after: LevelSim, sp: SpriteSet, tex: Texture, fill: int, x: int, y: int, on: bool) -> bool {
    &&& after.width == before.width
    &&& after.height == before.height
    &&& after.material_flags == before.material_flags
    &&& after.material_id@.len() == before.material_id@.len()
    &&& forall|mx: int, my: int| #[trigger] before.in_bounds(mx, my) ==>
        after.material_id@[before.cell(mx, my)] == if on && in_dirt_window(before, x, y, mx, my) {
            carved(before, sp, tex, fill, x, y, mx, my)
        } else {
            before.material_id@[before.cell(mx, my)]
        }
}

/// The new material of one in-window cell.
fn carve_cell(level: &LevelSim, sp: &SpriteSet, tex: Texture, fill: i32, x: i32, y: i32, mx: i32, my: i32) -> (r: u8)
    requires
        level.wf(),
        sp.wf(),
        sp.frame_len() >= 256,
        0 <= tex.mframe < sp.count,
        0 <= fill < sp.count,
        in_dirt_window(*level, x as int, y as int, mx as int, my as int),
    ensures
        r == carved(*level, *sp, tex, fill as int, x as int, y as int, mx as int, my as int),
{
    proof {
        lemma_cell_in_range(mx as int, my as int, level.width as int, level.height as int);
    }
    let idx = (mx + my * level.width) as usize;
    let old = level.material_id[idx];
    let c = sp.texel_at(tex.mframe, ((my - y) * 16 + (mx - x)) as usize);
    let t = sp.texel_at(fill, ((my % 16) * 16 + mx % 16) as usize);
    if tex.ndrawback {
        if c == 6 {
            if level.any_dirt(mx, my) { t } else { old }
        } else if c == 1 {
            if level.dirt2(mx, my) {
                2
            } else if level.dirt(mx, my) {
                1
            } else {
                old
            }
        } else {
            old
        }
    } else {
        if c == 10 || c == 6 {
            if level.background(mx, my) { t } else { old }
        } else if c == 2 {
            if level.background(mx, my) { 2 } else { old }
        } else if c == 1 {
            if level.background(mx, my) { 1 } else { old }
        } else {
            old
        }
    }
}

/// Stamps dirt effect `dirt_effect` (an index into `textures`) with its 16x16
/// window at level coordinates `(x, y)`. `fill_draw` is the random draw below
/// the texture's `rframe`, made before any pixel is written, that picks the
/// fill frame `sframe + fill_draw`.
///
/// Every in-window cell gets its [`carved`] material, computed from the level
/// before the call; every other cell keeps its material.
pub fn draw_dirt_effect(
    level: &mut LevelSim,
    large_sprites: &SpriteSet,
    textures: &[Texture],
    dirt_effect: i32,
    x: i32,
    y: i32,
    fill_draw: u32,
)
    requires
        old(level).wf(),
        large_sprites.wf(),
        large_sprites.frame_len() >= 256,
        0 <= dirt_effect < textures@.len(),
        0 <= textures@[dirt_effect as int].mframe < large_sprites.count,
        fill_draw <= i32::MAX,
        0 <= textures@[dirt_effect as int].sframe + fill_draw < large_sprites.count,
        x + 16 <= i32::MAX,
        y + 16 <= i32::MAX,
    ensures
        final(level).width == old(level).width,
        final(level).height == old(level).height,
        final(level).material_flags == old(level).material_flags,
        final(level).material_id@.len() == old(level).material_id@.len(),
        forall|mx: int, my: int| #[trigger] old(level).in_bounds(mx, my) ==>
            final(level).material_id@[old(level).cell(mx, my)] == if in_dirt_window(*old(level), x as int, y as int, mx, my) {
                carved(*old(level), *large_sprites, textures@[dirt_effect as int],
                    textures@[dirt_effect as int].sframe + fill_draw, x as int, y as int, mx, my)
            } else {
                old(level).material_id@[old(level).cell(mx, my)]
            },
{
    let ghost orig = *level;
    let tex = textures[dirt_effect as usize];
    let fill = tex.sframe + fill_draw as i32;
    let x1 = if x < 0 { 0 } else { x };
    let y1 = if y < 0 { 0 } else { y };
    let x2 = if x + 16 < level.width { x + 16 } else { level.width };
    let y2 = if y + 16 < level.height - 1 { y + 16 } else { level.height - 1 };
    let ghost win = dirt_window(orig, x as int, y as int);
    assert(win == (x1 as int, y1 as int, x2 as int, y2 as int));
    let mut my = y1;
    while my < y2
        invariant
            level.wf(),
            orig.wf(),
            large_sprites.wf(),
            large_sprites.frame_len() >= 256,
            0 <= tex.mframe < large_sprites.count,
            0 <= fill < large_sprites.count,
            level.width == orig.width,
            level.height == orig.height,
            level.material_flags == orig.material_flags,
            level.material_id@.len() == orig.material_id@.len(),
            win == dirt_window(orig, x as int, y as int),
            win == (x1 as int, y1 as int, x2 as int, y2 as int),
            x1 >= 0,
            y1 >= 0,
            x2 <= orig.width,
            y2 < orig.height,
            y1 <= my,
            forall|a: int, b: int| #[trigger] orig.in_bounds(a, b) ==>
                level.material_id@[orig.cell(a, b)] == if in_dirt_window(orig, x as int, y as int, a, b) && b < my {
                    carved(orig, *large_sprites, tex, fill as int, x as int, y as int, a, b)
                } else {
                    orig.material_id@[orig.cell(a, b)]
                },
        decreases y2 - my,
    {
        let mut mx = x1;
        while mx < x2
            invariant
                level.wf(),
                orig.wf(),
                large_sprites.wf(),
                large_sprites.frame_len() >= 256,
                0 <= tex.mframe < large_sprites.count,
                0 <= fill < large_sprites.count,
                level.width == orig.width,
                level.height == orig.height,
                level.material_flags == orig.material_flags,
                level.material_id@.len() == orig.material_id@.len(),
                win == dirt_window(orig, x as int, y as int),
                win == (x1 as int, y1 as int, x2 as int, y2 as int),
                x1 >= 0,
                y1 >= 0,
                x2 <= orig.width,
                y2 < orig.height,
                y1 <= my < y2,
                x1 <= mx,
                forall|a: int, b: int| #[trigger] orig.in_bounds(a, b) ==>
                    level.material_id@[orig.cell(a, b)] == if in_dirt_window(orig, x as int, y as int, a, b) && (b < my || (b == my && a < mx)) {
                        carved(orig, *large_sprites, tex, fill as int, x as int, y as int, a, b)
                    } else {
                        orig.material_id@[orig.cell(a, b)]
                    },
            decreases x2 - mx,
        {
            proof {
                lemma_cell_in_range(mx as int, my as int, orig.width as int, orig.height as int);
                assert(orig.in_bounds(mx as int, my as int));
                assert forall|a: int, b: int| orig.in_bounds(a, b) && orig.cell(a, b) == orig.cell(mx as int, my as int)
                    implies a == mx && b == my by {
                    lemma_cell_injective(a, b, mx as int, my as int, orig.width as int, orig.height as int);
                }
                assert(level.material_id@[orig.cell(mx as int, my as int)] == orig.material_id@[orig.cell(mx as int, my as int)]);
            }
            let ghost cur = *level;
            proof {
                assert forall|a: int, b: int| #[trigger] orig.in_bounds(a, b) && a == mx && b == my implies
                    cur.material_id@[cur.cell(a, b)] == orig.material_id@[orig.cell(a, b)] by {}
                assert(cur.flags_xy(mx as int, my as int) == orig.flags_xy(mx as int, my as int));
                assert(carved(cur, *large_sprites, tex, fill as int, x as int, y as int, mx as int, my as int)
                    == carved(orig, *large_sprites, tex, fill as int, x as int, y as int, mx as int, my as int));
            }
            let v = carve_cell(level, large_sprites, tex, fill, x, y, mx, my);
            let idx = (mx + my * level.width) as usize;
            level.set_material(idx, v);
            proof {
                assert forall|a: int, b: int| #[trigger] orig.in_bounds(a, b) implies
                    level.material_id@[orig.cell(a, b)] == if in_dirt_window(orig, x as int, y as int, a, b) && (b < my || (b == my && a < mx + 1)) {
                        carved(orig, *large_sprites, tex, fill as int, x as int, y as int, a, b)
                    } else {
                        orig.material_id@[orig.cell(a, b)]
                    } by {
                    lemma_cell_in_range(a, b, orig.width as int, orig.height as int);
                    if orig.cell(a, b) == idx as int {
                        lemma_cell_injective(a, b, mx as int, my as int, orig.width as int, orig.height as int);
                    }
                }
            }
            mx += 1;
        }
        my += 1;
    }
}

} // verus!
