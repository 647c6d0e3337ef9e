//! Level construction: the empty level and the pieces of the random dirt
//! pattern — the diffusion noise field, the large-sprite splat and the stone
//! blit.
//!
//! The noise field draws exactly `width * height` values, handed in by the
//! caller in this order: the corner below 7; the rest of the first column
//! top to bottom, each below 7; the rest of the first row left to right,
//! each below 7; then the interior row by row, each below 8.

use vstd::prelude::*;
use crate::blit::{crater_ok, cratered, draw_dirt_effect, SpriteSet, Texture};
use crate::draws::{lemma_tape_bound_below, tape_bound, DrawTape, Draws};
use crate::shadow::lemma_cell_injective;
use crate::state::{lemma_cell_in_range, LevelSim};

verus! {

/// Largest level side accepted.
pub const MAX_DIM: i32 = 4096;

/// A zero-filled `width x height` level carrying the flag table `material_flags`.
pub fn new_level(width: i32, height: i32, material_flags: &[u8; 256]) -> (r: LevelSim)
    requires
        1 <= width <= MAX_DIM,
        1 <= height <= MAX_DIM,
    ensures
        r.wf(),
        r.width == width,
        r.height == height,
        r.material_flags == *material_flags,
        r.material_id@ == Seq::new((width * height) as nat, |i: int| 0u8),
{
    assert(width * height <= 4096 * 4096) by (nonlinear_arith)
        requires 1 <= width <= 4096, 1 <= height <= 4096;
    let n = (width * height) as usize;
    let mut material_id: Vec<u8> = Vec::with_capacity(n);
    let mut k: usize = 0;
    while k < n
        invariant
            k <= n,
            material_id@ == Seq::new(k as nat, |i: int| 0u8),
        decreases n - k,
    {
        material_id.push(0u8);
        k += 1;
    }
    LevelSim { width, height, material_id, material_flags: *material_flags }
}

/// The material of the in-bounds pixel `(x, y)` after splatting the 16x16
/// `image` with its top-left at `(kx, ky)`: a pixel under a non-zero texel in
/// 177..=179 blends to the mean of texel and pixel, any other pixel under a
/// non-zero texel takes the texel; every other pixel is unchanged.
pub open spec fn splat_value(level: LevelSim, image: Seq<u8>, kx: int, ky: int, x: int, y: int) -> u8 {
    let pix = level.material_id@[level.cell(x, y)];
    let cx = x - kx;
    let cy = y - ky;
    if 0 <= cx < 16 && 0 <= cy < 16 && image[cy * 16 + cx] > 0 {
        let src = image[cy * 16 + cx];
        if 176 < pix < 180 { ((src + pix) / 2) as u8 } else { src }
    } else {
        pix
    }
}

/// Splats the 16x16 sprite `image` onto the level with its top-left at
/// `(kx, ky)`, clipped to the level.
pub fn splat_sprite(level: &mut LevelSim, image: &[u8], kx: i32, ky: i32)
    requires
        old(level).wf(),
        image@.len() >= 256,
        kx <= i32::MAX - 16,
        ky <= i32::MAX - 16,
    ensures
        final(level).width == old(level).width,
        final(level).height == old(level).height,
        final(level).material_flags == old(level).material_flags,
        final(level).material_id@.len() == old(level).material_id@.len(),
        forall|x: int, y: int| #[trigger] old(level).in_bounds(x, y) ==>
            final(level).material_id@[old(level).cell(x, y)] == splat_value(*old(level), image@, kx as int, ky as int, x, y),
{
    let ghost orig = *level;
    let mut cy: i32 = 0;
    while cy < 16 && cy + ky < level.height
        invariant
            0 <= cy <= 16,
            level.wf(),
            orig.wf(),
            level.width == orig.width,
            level.height == orig.height,
            level.material_flags == orig.material_flags,
            level.material_id@.len() == orig.material_id@.len(),
            image@.len() >= 256,
            ky <= i32::MAX - 16,
            kx <= i32::MAX - 16,
            forall|a: int, b: int| #[trigger] orig.in_bounds(a, b) ==>
                level.material_id@[orig.cell(a, b)] == if b - ky < cy {
                    splat_value(orig, image@, kx as int, ky as int, a, b)
                } else {
                    orig.material_id@[orig.cell(a, b)]
                },
        decreases 16 - cy,
    {
        let my = cy + ky;
        if my >= 0 {
            let mut cx: i32 = 0;
            while cx < 16 && cx + kx < level.width
                invariant
                    0 <= cx <= 16,
                    0 <= cy < 16,
                    my == cy + ky,
                    0 <= my < orig.height,
                    level.wf(),
                    orig.wf(),
                    level.width == orig.width,
                    level.height == orig.height,
                    level.material_flags == orig.material_flags,
                    level.material_id@.len() == orig.material_id@.len(),
                    image@.len() >= 256,
                    ky <= i32::MAX - 16,
                    kx <= i32::MAX - 16,
                    forall|a: int, b: int| #[trigger] orig.in_bounds(a, b) ==>
                        level.material_id@[orig.cell(a, b)] == if b - ky < cy || (b == my && a - kx < cx) {
                            splat_value(orig, image@, kx as int, ky as int, a, b)
                        } else {
                            orig.material_id@[orig.cell(a, b)]
                        },
                decreases 16 - cx,
            {
                let mx = cx + kx;
                if mx >= 0 {
                    assert((cy << 4u32) == cy * 16) by (bit_vector)
                        requires 0 <= cy < 16;
                    let src = image[((cy << 4u32) + cx) as usize];
                    proof {
                        lemma_cell_in_range(mx as int, my as int, orig.width as int, orig.height as int);
                    }
                    let ghost before = level.material_id@;
                    let idx = (mx + my * level.width) as usize;
                    if src > 0 {
                        let pix = level.material_id[idx];
                        let v = if pix > 176 && pix < 180 { ((src as u32 + pix as u32) / 2) as u8 } else { src };
                        level.set_material(idx, v);
                    }
                    proof {
                        assert(orig.in_bounds(mx as int, my as int));
                        assert(before[idx as int] == orig.material_id@[orig.cell(mx as int, my as int)]);
                        assert forall|a: int, b: int| #[trigger] orig.in_bounds(a, b) implies
                            level.material_id@[orig.cell(a, b)] == if b - ky < cy || (b == my && a - kx < cx + 1) {
                                splat_value(orig, image@, kx as int, ky as int, a, b)
                            } else {
                                orig.material_id@[orig.cell(a, b)]
                            } by {
                            lemma_cell_in_range(a, b, orig.width as int, orig.height as int);
                            if orig.cell(a, b) == idx as int {
                                crate::shadow::lemma_cell_injective(a, b, mx as int, my as int, orig.width as int, orig.height as int);
                            }
                        }
                    }
                } else {
                    proof {
                        assert forall|a: int, b: int| #[trigger] orig.in_bounds(a, b) implies
                            level.material_id@[orig.cell(a, b)] == if b - ky < cy || (b == my && a - kx < cx + 1) {
                                splat_value(orig, image@, kx as int, ky as int, a, b)
                            } else {
                                orig.material_id@[orig.cell(a, b)]
                            } by {
                            if b == my && a - kx == cx {
                                assert(a < 0);
                            }
                        }
                    }
                }
                cx += 1;
            }
            proof {
                assert forall|a: int, b: int| #[trigger] orig.in_bounds(a, b) implies
                    level.material_id@[orig.cell(a, b)] == if b - ky < cy + 1 {
                        splat_value(orig, image@, kx as int, ky as int, a, b)
                    } else {
                        orig.material_id@[orig.cell(a, b)]
                    } by {
                    if b == my && a - kx >= cx {
                        assert(a - kx >= 16 || a >= orig.width);
                    }
                }
            }
        } else {
            proof {
                assert forall|a: int, b: int| #[trigger] orig.in_bounds(a, b) implies
                    level.material_id@[orig.cell(a, b)] == if b - ky < cy + 1 {
                        splat_value(orig, image@, kx as int, ky as int, a, b)
                    } else {
                        orig.material_id@[orig.cell(a, b)]
                    } by {
                    if b - ky == cy {
                        assert(b < 0);
                    }
                }
            }
        }
        cy += 1;
    }
    proof {
        assert forall|a: int, b: int| #[trigger] orig.in_bounds(a, b) implies
            level.material_id@[orig.cell(a, b)] == splat_value(orig, image@, kx as int, ky as int, a, b) by {
            if b - ky >= cy {
                assert(b - ky >= 16 || b >= orig.height);
            }
        }
    }
}


/// `(mx, my)` lies in the 16x16 stone window at `(x, y)` clipped to the level.
pub open spec fn in_stone_window(level: LevelSim, x: int, y: int, mx: int, my: int) -> bool {
    (if x < 0 { 0 } else { x }) <= mx < (if x + 16 < level.width { x + 16 } else { level.width as int })
        && (if y < 0 { 0 } else { y }) <= my < (if y + 16 < level.height { y + 16 } else { level.height as int })
}

/// The material of an in-window cell after the stone blit: the texel when it
/// is non-zero, else the old material.
pub open spec fn stone_value(level: LevelSim, sp: SpriteSet, frame: int, x: int, y: int, mx: int, my: int) -> u8 {
    let c = sp.texel(frame, (my - y) * 16 + (mx - x));
    if c != 0 { c } else { level.material_id@[level.cell(mx, my)] }
}

/// Blits stone sprite `frame` with its top-left at `(x, y)`, clipped to the
/// whole level: every non-zero texel overwrites the cell under it.
pub fn blit_stone(level: &mut LevelSim, large_sprites: &SpriteSet, frame: usize, x: i32, y: i32)
    requires
        old(level).wf(),
        large_sprites.wf(),
        large_sprites.frame_len() >= 256,
        frame < large_sprites.count,
        x + 16 <= i32::MAX,
        y + 16 <= i32::MAX,
    ensures
        final(level).width == old(level).width,
        final(level).height == old(level).height,
        final(level).material_flags == old(level).material_flags,
        final(level).material_id@.len() == old(level).material_id@.len(),
        forall|mx: int, my: int| #[trigger] old(level).in_bounds(mx, my) ==>
            final(level).material_id@[old(level).cell(mx, my)] == if in_stone_window(*old(level), x as int, y as int, mx, my) {
                stone_value(*old(level), *large_sprites, frame as int, x as int, y as int, mx, my)
            } else {
                old(level).material_id@[old(level).cell(mx, my)]
            },
{
    let ghost orig = *level;
    let x1 = if x < 0 { 0 } else { x };
    let y1 = if y < 0 { 0 } else { y };
    let x2 = if x + 16 < level.width { x + 16 } else { level.width };
    let y2 = if y + 16 < level.height { y + 16 } else { level.height };
    let fr = frame as i32;
    let mut my = y1;
    while my < y2
        invariant
            level.wf(),
            orig.wf(),
            large_sprites.wf(),
            large_sprites.frame_len() >= 256,
            0 <= fr < large_sprites.count,
            fr == frame,
            level.width == orig.width,
            level.height == orig.height,
            level.material_flags == orig.material_flags,
            level.material_id@.len() == orig.material_id@.len(),
            x1 == (if x < 0 { 0 } else { x }),
            y1 == (if y < 0 { 0 } else { y }),
            x2 == (if x + 16 < orig.width { x + 16 } else { orig.width as int }),
            y2 == (if y + 16 < orig.height { y + 16 } else { orig.height as int }),
            y1 <= my,
            forall|a: int, b: int| #[trigger] orig.in_bounds(a, b) ==>
                level.material_id@[orig.cell(a, b)] == if in_stone_window(orig, x as int, y as int, a, b) && b < my {
                    stone_value(orig, *large_sprites, frame as int, x as int, y as int, a, b)
                } else {
                    orig.material_id@[orig.cell(a, b)]
                },
        decreases y2 - my,
    {
        let mut mx = x1;
        while mx < x2
            invariant
                level.wf(),
                orig.wf(),
                large_sprites.wf(),
                large_sprites.frame_len() >= 256,
                0 <= fr < large_sprites.count,
                fr == frame,
                level.width == orig.width,
                level.height == orig.height,
                level.material_flags == orig.material_flags,
                level.material_id@.len() == orig.material_id@.len(),
                x1 == (if x < 0 { 0 } else { x }),
                y1 == (if y < 0 { 0 } else { y }),
                x2 == (if x + 16 < orig.width { x + 16 } else { orig.width as int }),
                y2 == (if y + 16 < orig.height { y + 16 } else { orig.height as int }),
                y1 <= my < y2,
                x1 <= mx,
                forall|a: int, b: int| #[trigger] orig.in_bounds(a, b) ==>
                    level.material_id@[orig.cell(a, b)] == if in_stone_window(orig, x as int, y as int, a, b) && (b < my || (b == my && a < mx)) {
                        stone_value(orig, *large_sprites, frame as int, x as int, y as int, a, b)
                    } else {
                        orig.material_id@[orig.cell(a, b)]
                    },
            decreases x2 - mx,
        {
            proof {
                lemma_cell_in_range(mx as int, my as int, orig.width as int, orig.height as int);
            }
            let idx = (mx + my * level.width) as usize;
            let c = large_sprites.texel_at(fr, ((my - y) * 16 + (mx - x)) as usize);
            let ghost before = level.material_id@;
            if c != 0 {
                level.set_material(idx, c);
            }
            proof {
                assert(orig.in_bounds(mx as int, my as int));
                assert forall|a: int, b: int| #[trigger] orig.in_bounds(a, b) implies
                    level.material_id@[orig.cell(a, b)] == if in_stone_window(orig, x as int, y as int, a, b) && (b < my || (b == my && a < mx + 1)) {
                        stone_value(orig, *large_sprites, frame as int, x as int, y as int, a, b)
                    } else {
                        orig.material_id@[orig.cell(a, b)]
                    } by {
                    lemma_cell_in_range(a, b, orig.width as int, orig.height as int);
                    if orig.cell(a, b) == idx as int {
                        lemma_cell_injective(a, b, mx as int, my as int, orig.width as int, orig.height as int);
                    }
                }
            }
            mx += 1;
        }
        my += 1;
    }
}

/// The noise value of pixel `(x, y)` from the field draws `d` of a
/// `w x h` level: the corner is `d + 12`; a first-column or first-row cell
/// averages `d + 12` with its neighbour above or to the left (halving, rounding
/// down); an interior cell is a third of its left and upper neighbours plus
/// `d + 12`.
pub open spec fn field_value(d: Seq<u32>, w: nat, h: nat, x: nat, y: nat) -> int
    decreases x + y,
{
    if x == 0 && y == 0 {
        d[0] + 12
    } else if x == 0 {
        (d[y as int] + 12 + field_value(d, w, h, 0, (y - 1) as nat)) / 2
    } else if y == 0 {
        (d[h - 1 + x] + 12 + field_value(d, w, h, (x - 1) as nat, 0)) / 2
    } else {
        (field_value(d, w, h, (x - 1) as nat, y) + field_value(d, w, h, x, (y - 1) as nat)
            + d[h + w - 1 + (y - 1) * (w - 1) + (x - 1)] + 12) / 3
    }
}

/// The field draws of a `w x h` level are in range: below 7 for the first
/// column and row, below 8 for the interior.
pub open spec fn field_draws_ok(d: Seq<u32>, w: nat, h: nat) -> bool {
    &&& d.len() == w * h
    &&& forall|k: int| 0 <= k < h + w - 1 ==> #[trigger] d[k] < 7
    &&& forall|k: int| h + w - 1 <= k < d.len() ==> #[trigger] d[k] < 8
}

/// Every noise value lies in the dirt shades 12..=18.
pub proof fn lemma_field_value_range(d: Seq<u32>, w: nat, h: nat, x: nat, y: nat)
    requires
        1 <= w,
        1 <= h,
        x < w,
        y < h,
        field_draws_ok(d, w, h),
    ensures
        12 <= field_value(d, w, h, x, y) <= 18,
    decreases x + y,
{
    if x == 0 && y == 0 {
    } else if x == 0 {
        lemma_field_value_range(d, w, h, 0, (y - 1) as nat);
    } else if y == 0 {
        lemma_field_value_range(d, w, h, (x - 1) as nat, 0);
    } else {
        lemma_field_value_range(d, w, h, (x - 1) as nat, y);
        lemma_field_value_range(d, w, h, x, (y - 1) as nat);
        let k = h + w - 1 + (y - 1) * (w - 1) + (x - 1);
        assert(h + w - 1 <= k < w * h) by (nonlinear_arith)
            requires k == h + w - 1 + (y - 1) * (w - 1) + (x - 1), 1 <= x < w, 1 <= y < h;
    }
}

/// Fills the whole level with the diffusion noise field of the draws `draws`
/// (see the module documentation for their order): every pixel gets its
/// [`field_value`].
pub fn generate_dirt_field(level: &mut LevelSim, draws: &Vec<u32>)
    requires
        old(level).wf(),
        old(level).width >= 1,
        old(level).height >= 1,
        field_draws_ok(draws@, old(level).width as nat, old(level).height as nat),
    ensures
        final(level).width == old(level).width,
        final(level).height == old(level).height,
        final(level).material_flags == old(level).material_flags,
        final(level).material_id@.len() == old(level).material_id@.len(),
        forall|a: int, b: int| #[trigger] old(level).in_bounds(a, b) ==>
            final(level).material_id@[old(level).cell(a, b)]
                == field_value(draws@, old(level).width as nat, old(level).height as nat, a as nat, b as nat),
{
    let ghost orig = *level;
    let ghost wn = level.width as nat;
    let ghost hn = level.height as nat;
    let w = level.width;
    let h = level.height;
    proof {
        lemma_field_value_range(draws@, wn, hn, 0, 0);
        lemma_cell_in_range(0, 0, w as int, h as int);
    }
    let corner = draws[0] + 12;
    level.set_material(0, corner as u8);
    let mut k: usize = 1;
    let mut y: i32 = 1;
    while y < h
        invariant
            level.wf(),
            orig.wf(),
            level.width == orig.width,
            level.height == orig.height,
            level.material_flags == orig.material_flags,
            level.material_id@.len() == orig.material_id@.len(),
            w == orig.width,
            h == orig.height,
            wn == w,
            hn == h,
            1 <= w,
            1 <= y <= h,
            k == y,
            field_draws_ok(draws@, wn, hn),
            forall|a: int, b: int| #[trigger] orig.in_bounds(a, b) && a == 0 && b < y ==>
                level.material_id@[orig.cell(a, b)] == field_value(draws@, wn, hn, a as nat, b as nat),
        decreases h - y,
    {
        proof {
            lemma_cell_in_range(0, y - 1, w as int, h as int);
            lemma_cell_in_range(0, y as int, w as int, h as int);
            lemma_field_value_range(draws@, wn, hn, 0, y as nat);
            lemma_field_value_range(draws@, wn, hn, 0, (y - 1) as nat);
            assert(orig.in_bounds(0, y - 1));
            assert(k < draws@.len()) by (nonlinear_arith)
                requires k == y, y < h, 1 <= w, draws@.len() == wn * hn, wn == w, hn == h;
        }
        let up = level.material_id[((y - 1) * w) as usize] as u32;
        let dk = draws[k];
        let sum = dk + 12 + up;
        let v = sum >> 1u32;
        assert(v == sum / 2) by (bit_vector)
            requires v == sum >> 1u32;
        let idx = (y * w) as usize;
        level.set_material(idx, v as u8);
        proof {
            assert forall|a: int, b: int| #[trigger] orig.in_bounds(a, b) && a == 0 && b < y + 1 implies
                level.material_id@[orig.cell(a, b)] == field_value(draws@, wn, hn, a as nat, b as nat) by {
                lemma_cell_in_range(a, b, w as int, h as int);
                if orig.cell(a, b) == idx as int {
                    lemma_cell_injective(a, b, 0, y as int, w as int, h as int);
                }
            }
        }
        k += 1;
        y += 1;
    }
    let mut x: i32 = 1;
    while x < w
        invariant
            level.wf(),
            orig.wf(),
            level.width == orig.width,
            level.height == orig.height,
            level.material_flags == orig.material_flags,
            level.material_id@.len() == orig.material_id@.len(),
            w == orig.width,
            h == orig.height,
            wn == w,
            hn == h,
            1 <= h,
            1 <= x <= w,
            k == h - 1 + x,
            field_draws_ok(draws@, wn, hn),
            forall|a: int, b: int| #[trigger] orig.in_bounds(a, b) && (a == 0 || (b == 0 && a < x)) ==>
                level.material_id@[orig.cell(a, b)] == field_value(draws@, wn, hn, a as nat, b as nat),
        decreases w - x,
    {
        proof {
            lemma_cell_in_range(x - 1, 0, w as int, h as int);
            lemma_cell_in_range(x as int, 0, w as int, h as int);
            lemma_field_value_range(draws@, wn, hn, x as nat, 0);
            lemma_field_value_range(draws@, wn, hn, (x - 1) as nat, 0);
            assert(orig.in_bounds(x - 1, 0));
            assert(k < draws@.len()) by (nonlinear_arith)
                requires k == h - 1 + x, 1 <= x < w, 1 <= h, draws@.len() == wn * hn, wn == w, hn == h;
        }
        let left = level.material_id[(x - 1) as usize] as u32;
        let dk = draws[k];
        let sum = dk + 12 + left;
        let v = sum >> 1u32;
        assert(v == sum / 2) by (bit_vector)
            requires v == sum >> 1u32;
        let idx = x as usize;
        level.set_material(idx, v as u8);
        proof {
            assert forall|a: int, b: int| #[trigger] orig.in_bounds(a, b) && (a == 0 || (b == 0 && a < x + 1)) implies
                level.material_id@[orig.cell(a, b)] == field_value(draws@, wn, hn, a as nat, b as nat) by {
                lemma_cell_in_range(a, b, w as int, h as int);
                if orig.cell(a, b) == idx as int {
                    lemma_cell_injective(a, b, x as int, 0, w as int, h as int);
                }
            }
        }
        k += 1;
        x += 1;
    }
    let mut y: i32 = 1;
    while y < h
        invariant
            level.wf(),
            orig.wf(),
            level.width == orig.width,
            level.height == orig.height,
            level.material_flags == orig.material_flags,
            level.material_id@.len() == orig.material_id@.len(),
            w == orig.width,
            h == orig.height,
            wn == w,
            hn == h,
            1 <= w,
            1 <= y <= h,
            k == h + w - 1 + (y - 1) * (w - 1),
            field_draws_ok(draws@, wn, hn),
            forall|a: int, b: int| #[trigger] orig.in_bounds(a, b) && (a == 0 || b == 0 || b < y) ==>
                level.material_id@[orig.cell(a, b)] == field_value(draws@, wn, hn, a as nat, b as nat),
        decreases h - y,
    {
        let mut x: i32 = 1;
        while x < w
            invariant
                level.wf(),
                orig.wf(),
                level.width == orig.width,
                level.height == orig.height,
                level.material_flags == orig.material_flags,
                level.material_id@.len() == orig.material_id@.len(),
                w == orig.width,
                h == orig.height,
                wn == w,
                hn == h,
                1 <= y < h,
                1 <= x <= w,
                k == h + w - 1 + (y - 1) * (w - 1) + (x - 1),
                field_draws_ok(draws@, wn, hn),
                forall|a: int, b: int| #[trigger] orig.in_bounds(a, b) && (a == 0 || b == 0 || b < y || (b == y && a < x)) ==>
                    level.material_id@[orig.cell(a, b)] == field_value(draws@, wn, hn, a as nat, b as nat),
            decreases w - x,
        {
            proof {
                lemma_cell_in_range(x - 1, y as int, w as int, h as int);
                lemma_cell_in_range(x as int, y - 1, w as int, h as int);
                lemma_cell_in_range(x as int, y as int, w as int, h as int);
                lemma_field_value_range(draws@, wn, hn, x as nat, y as nat);
                lemma_field_value_range(draws@, wn, hn, (x - 1) as nat, y as nat);
                lemma_field_value_range(draws@, wn, hn, x as nat, (y - 1) as nat);
                assert(orig.in_bounds(x - 1, y as int));
                assert(orig.in_bounds(x as int, y - 1));
                assert(h + w - 1 <= k < draws@.len()) by (nonlinear_arith)
                    requires k == h + w - 1 + (y - 1) * (w - 1) + (x - 1), 1 <= x < w, 1 <= y < h,
                        draws@.len() == wn * hn, wn == w, hn == h;
            }
            let left = level.material_id[(x - 1 + y * w) as usize] as u32;
            let up = level.material_id[(x + (y - 1) * w) as usize] as u32;
            let v = (left + up + draws[k] + 12) / 3;
            let idx = (x + y * w) as usize;
            level.set_material(idx, v as u8);
            proof {
                assert forall|a: int, b: int| #[trigger] orig.in_bounds(a, b) && (a == 0 || b == 0 || b < y || (b == y && a < x + 1)) implies
                    level.material_id@[orig.cell(a, b)] == field_value(draws@, wn, hn, a as nat, b as nat) by {
                    lemma_cell_in_range(a, b, w as int, h as int);
                    if orig.cell(a, b) == idx as int {
                        lemma_cell_injective(a, b, x as int, y as int, w as int, h as int);
                    }
                }
            }
            k += 1;
            x += 1;
        }
        assert(k == h + w - 1 + y * (w - 1)) by (nonlinear_arith)
            requires k == h + w - 1 + (y - 1) * (w - 1) + (x - 1), x == w;
        y += 1;
    }
}

// ---------------------------------------------------------------------------
// Splats, stones and the whole dirt pattern
// ---------------------------------------------------------------------------

/// Reads `n` placements on a `w x h` level from a tape: per placement its
/// x below `w` minus 8, its y below `h` minus 8, and its frame `base` plus a
/// draw below 4.
pub open spec fn read_placements(t: DrawTape, n: nat, w: i32, h: i32, base: int) -> (Seq<(int, int, int)>, DrawTape)
    decreases n,
{
    if n == 0 {
        (Seq::empty(), t)
    } else {
        let (ps, t1) = read_placements(t, (n - 1) as nat, w, h, base);
        let (dx, t2) = tape_bound(t1, w as u32);
        let (dy, t3) = tape_bound(t2, h as u32);
        let (df, t4) = tape_bound(t3, 4);
        (ps.push((dx - 8, dy - 8, df + base)), t4)
    }
}

/// Placements read on a level of sides in `1..=MAX_DIM` lie in
/// `[-8, side - 8)` with a frame in `base..base + 4`.
pub proof fn lemma_read_placements_range(t: DrawTape, n: nat, w: i32, h: i32, base: int)
    requires
        1 <= w <= MAX_DIM,
        1 <= h <= MAX_DIM,
    ensures
        read_placements(t, n, w, h, base).0.len() == n,
        forall|k: int| 0 <= k < n ==> {
            let p = #[trigger] read_placements(t, n, w, h, base).0[k];
            &&& -8 <= p.0 < w - 8
            &&& -8 <= p.1 < h - 8
            &&& base <= p.2 < base + 4
        },
    decreases n,
{
    if n > 0 {
        lemma_read_placements_range(t, (n - 1) as nat, w, h, base);
        let (ps, t1) = read_placements(t, (n - 1) as nat, w, h, base);
        let (_, t2) = tape_bound(t1, w as u32);
        let (_, t3) = tape_bound(t2, h as u32);
        lemma_tape_bound_below(t1, w as u32);
        lemma_tape_bound_below(t2, h as u32);
        lemma_tape_bound_below(t3, 4);
        let all = read_placements(t, n, w, h, base).0;
        assert forall|k: int| 0 <= k < n implies {
            let p = #[trigger] all[k];
            &&& -8 <= p.0 < w - 8
            &&& -8 <= p.1 < h - 8
            &&& base <= p.2 < base + 4
        } by {
            if k < n - 1 {
                assert(all[k] == ps[k]);
            }
        }
    }
}

/// `after` is `before` with the 16x16 `image` splatted at `(kx, ky)`
/// ([`splat_value`]).
pub open spec fn splatted(before: LevelSim, after: LevelSim, image: Seq<u8>, kx: int, ky: int) -> bool {
    &&& after.width == before.width
    &&& after.height == before.height
    &&& after.material_flags == before.material_flags
    &&& after.material_id@.len() == before.material_id@.len()
    &&& forall|x: int, y: int| #[trigger] before.in_bounds(x, y) ==>
        after.material_id@[before.cell(x, y)] == splat_value(before, image, kx, ky, x, y)
}

/// `after` is `before` with stone frame `frame` blitted at `(x, y)`
/// ([`stone_value`]).
pub open spec fn stoned(before: LevelSim, after: LevelSim, sp: SpriteSet, frame: int, x: int, y: int) -> bool {
    &&& after.width == before.width
    &&& after.height == before.height
    &&& after.material_flags == before.material_flags
    &&& after.material_id@.len() == before.material_id@.len()
    &&& forall|mx: int, my: int| #[trigger] before.in_bounds(mx, my) ==>
        after.material_id@[before.cell(mx, my)] == if in_stone_window(before, x, y, mx, my) {
            stone_value(before, sp, frame, x, y, mx, my)
        } else {
            before.material_id@[before.cell(mx, my)]
        }
}

/// Step `k` of a chain of levels: the `k`-th placement splatted (`stones`
/// false) or blitted as a stone (`stones` true).
pub open spec fn placed_link(ls: Seq<LevelSim>, sp: SpriteSet, ps: Seq<(int, int, int)>, stones: bool, k: int) -> bool {
    let p = ps[k];
    if stones {
        stoned(ls[k], ls[k + 1], sp, p.2, p.0, p.1)
    } else {
        splatted(ls[k], ls[k + 1], sp.frame_bytes(p.2), p.0, p.1)
    }
}

/// `ls` goes from `ls[0]` through every placement of `ps` in order.
pub open spec fn placed_chain(ls: Seq<LevelSim>, sp: SpriteSet, ps: Seq<(int, int, int)>, stones: bool) -> bool {
    &&& ls.len() == ps.len() + 1
    &&& forall|k: int| 0 <= k < ps.len() ==> #[trigger] placed_link(ls, sp, ps, stones, k)
}

/// Places `count` sprites read from `draws` ([`read_placements`] with frames
/// from `base`): splats, or stones when `stones`.
fn place_sprites(level: &mut LevelSim, large_sprites: &SpriteSet, count: u32, base: usize, stones: bool, draws: &mut Draws)
    requires
        old(level).wf(),
        1 <= old(level).width <= MAX_DIM,
        1 <= old(level).height <= MAX_DIM,
        large_sprites.wf(),
        large_sprites.frame_len() >= 256,
        base + 4 <= large_sprites.count,
        old(draws).wf(),
    ensures
        final(draws).wf(),
        final(level).wf(),
        final(level).width == old(level).width,
        final(level).height == old(level).height,
        ({
            let (ps, t) = read_placements(old(draws)@, count as nat, old(level).width, old(level).height, base as int);
            &&& final(draws)@ == t
            &&& exists|ls: Seq<LevelSim>| #[trigger] placed_chain(ls, *large_sprites, ps, stones)
                && ls[0] == *old(level) && ls.last() == *final(level)
        }),
{
    let ghost t0 = draws@;
    let ghost ls0 = *level;
    let ghost mut ls: Seq<LevelSim> = seq![*level];
    let w = level.width;
    let h = level.height;
    let mut i: u32 = 0;
    while i < count
        invariant
            i <= count,
            level.wf(),
            level.width == w,
            level.height == h,
            1 <= w <= MAX_DIM,
            1 <= h <= MAX_DIM,
            ls0.width == w,
            ls0.height == h,
            large_sprites.wf(),
            large_sprites.frame_len() >= 256,
            base + 4 <= large_sprites.count,
            draws.wf(),
            ({
                let (ps, t) = read_placements(t0, i as nat, w, h, base as int);
                &&& draws@ == t
                &&& placed_chain(ls, *large_sprites, ps, stones)
            }),
            ls[0] == ls0,
            ls.last() == *level,
        decreases count - i,
    {
        let ghost ps = read_placements(t0, i as nat, w, h, base as int).0;
        let ghost before = *level;
        let dx = draws.bound(w as u32);
        let dy = draws.bound(h as u32);
        let df = draws.bound(4);
        let kx = dx as i32 - 8;
        let ky = dy as i32 - 8;
        let frame = df as usize + base;
        if stones {
            blit_stone(level, large_sprites, frame, kx, ky);
        } else {
            let image = large_sprites.sprite(frame);
            proof {
                let fl = large_sprites.frame_len();
                assert(image@.len() == fl) by {
                    assert((frame + 1) * fl <= large_sprites.count * fl) by (nonlinear_arith)
                        requires 0 <= frame < large_sprites.count, 0 <= fl;
                    assert(0 <= frame * fl) by (nonlinear_arith)
                        requires 0 <= frame, 0 <= fl;
                    assert((frame + 1) * fl == frame * fl + fl) by (nonlinear_arith);
                }
            }
            splat_sprite(level, image, kx, ky);
        }
        proof {
            lemma_read_placements_range(t0, i as nat, w, h, base as int);
            lemma_read_placements_range(t0, (i + 1) as nat, w, h, base as int);
            let ps2 = read_placements(t0, (i + 1) as nat, w, h, base as int).0;
            assert(ls.len() == i + 1);
            assert(ls[i as int] == before);
            assert(ps2 == ps.push((dx - 8, dy - 8, df + base)));
            let next = ls.push(*level);
            assert(placed_link(next, *large_sprites, ps2, stones, i as int));
            assert forall|k: int| 0 <= k < ps2.len() implies #[trigger] placed_link(next, *large_sprites, ps2, stones, k) by {
                if k < i {
                    assert(placed_link(ls, *large_sprites, ps, stones, k));
                    assert(next[k] == ls[k] && next[k + 1] == ls[k + 1]);
                    assert(ps2[k] == ps[k]);
                }
            }
            ls = next;
        }
        i += 1;
    }
}

/// The splat block of the dirt pattern: a count below 100, then that many
/// large sprites of frames `69..=72` splatted at placements read from the
/// tape ([`read_placements`], [`splatted`]).
pub fn splat_large_sprites(level: &mut LevelSim, large_sprites: &SpriteSet, draws: &mut Draws)
    requires
        old(level).wf(),
        1 <= old(level).width <= MAX_DIM,
        1 <= old(level).height <= MAX_DIM,
        large_sprites.wf(),
        large_sprites.frame_len() >= 256,
        73 <= large_sprites.count,
        old(draws).wf(),
    ensures
        final(draws).wf(),
        final(level).wf(),
        final(level).width == old(level).width,
        final(level).height == old(level).height,
        ({
            let (count, t1) = tape_bound(old(draws)@, 100);
            let (ps, t2) = read_placements(t1, count as nat, old(level).width, old(level).height, 69);
            &&& final(draws)@ == t2
            &&& exists|ls: Seq<LevelSim>| #[trigger] placed_chain(ls, *large_sprites, ps, false)
                && ls[0] == *old(level) && ls.last() == *final(level)
        }),
{
    let count = draws.bound(100);
    place_sprites(level, large_sprites, count, 69, false, draws);
}

/// The stone block of the dirt pattern: a count below 15, then that many
/// stones of frames `56..=59` blitted at placements read from the tape
/// ([`read_placements`], [`stoned`]).
pub fn scatter_stones(level: &mut LevelSim, large_sprites: &SpriteSet, draws: &mut Draws)
    requires
        old(level).wf(),
        1 <= old(level).width <= MAX_DIM,
        1 <= old(level).height <= MAX_DIM,
        large_sprites.wf(),
        large_sprites.frame_len() >= 256,
        60 <= large_sprites.count,
        old(draws).wf(),
    ensures
        final(draws).wf(),
        final(level).wf(),
        final(level).width == old(level).width,
        final(level).height == old(level).height,
        ({
            let (count, t1) = tape_bound(old(draws)@, 15);
            let (ps, t2) = read_placements(t1, count as nat, old(level).width, old(level).height, 56);
            &&& final(draws)@ == t2
            &&& exists|ls: Seq<LevelSim>| #[trigger] placed_chain(ls, *large_sprites, ps, true)
                && ls[0] == *old(level) && ls.last() == *final(level)
        }),
{
    let count = draws.bound(15);
    place_sprites(level, large_sprites, count, 56, true, draws);
}

/// Reads the first `n` field draws of a `w x h` level from a tape: the first
/// `h + w - 1` below 7, the rest below 8.
pub open spec fn read_field(t: DrawTape, n: nat, w: nat, h: nat) -> (Seq<u32>, DrawTape)
    decreases n,
{
    if n == 0 {
        (Seq::empty(), t)
    } else {
        let (d, t1) = read_field(t, (n - 1) as nat, w, h);
        let (v, t2) = tape_bound(t1, if n - 1 < h + w - 1 { 7u32 } else { 8u32 });
        (d.push(v), t2)
    }
}

/// Field draws read from a tape are in range.
pub proof fn lemma_read_field_ok(t: DrawTape, n: nat, w: nat, h: nat)
    ensures
        read_field(t, n, w, h).0.len() == n,
        forall|k: int| 0 <= k < n ==> #[trigger] read_field(t, n, w, h).0[k] < if k < h + w - 1 { 7u32 } else { 8u32 },
    decreases n,
{
    if n > 0 {
        lemma_read_field_ok(t, (n - 1) as nat, w, h);
        let (d, t1) = read_field(t, (n - 1) as nat, w, h);
        lemma_tape_bound_below(t1, if n - 1 < h + w - 1 { 7u32 } else { 8u32 });
        let all = read_field(t, n, w, h).0;
        assert forall|k: int| 0 <= k < n implies #[trigger] all[k] < if k < h + w - 1 { 7u32 } else { 8u32 } by {
            if k < n - 1 {
                assert(all[k] == d[k]);
            }
        }
    }
}

/// Reads the `w * h` field draws of a `w x h` level ([`read_field`]).
pub fn field_draws(w: i32, h: i32, draws: &mut Draws) -> (r: Vec<u32>)
    requires
        1 <= w <= MAX_DIM,
        1 <= h <= MAX_DIM,
        old(draws).wf(),
    ensures
        final(draws).wf(),
        (r@, final(draws)@) == read_field(old(draws)@, (w * h) as nat, w as nat, h as nat),
        field_draws_ok(r@, w as nat, h as nat),
{
    assert(w * h <= MAX_DIM * MAX_DIM) by (nonlinear_arith)
        requires 1 <= w <= MAX_DIM, 1 <= h <= MAX_DIM;
    let n = (w as usize) * (h as usize);
    let edge = (h + w - 1) as usize;
    let mut out: Vec<u32> = Vec::new();
    let mut k: usize = 0;
    while k < n
        invariant
            k <= n,
            1 <= w <= MAX_DIM,
            1 <= h <= MAX_DIM,
            n == w * h,
            edge == h + w - 1,
            draws.wf(),
            (out@, draws@) == read_field(old(draws)@, k as nat, w as nat, h as nat),
        decreases n - k,
    {
        let bound: u32 = if k < edge { 7 } else { 8 };
        let v = draws.bound(bound);
        out.push(v);
        k += 1;
    }
    proof {
        lemma_read_field_ok(old(draws)@, n as nat, w as nat, h as nat);
        assert forall|k: int| 0 <= k < h + w - 1 implies #[trigger] out@[k] < 7 by {
            assert(h + w - 1 <= n) by (nonlinear_arith)
                requires n == w * h, 1 <= w, 1 <= h;
            assert(out@[k] < if k < h + w - 1 { 7u32 } else { 8u32 });
        }
        assert forall|k: int| h + w - 1 <= k < out@.len() implies #[trigger] out@[k] < 8 by {
            assert(out@[k] < if k < h + w - 1 { 7u32 } else { 8u32 });
        }
    }
    out
}

/// The random dirt pattern, reading `draws`: the noise field
/// ([`read_field`], [`field_value`]), then the splats
/// ([`splat_large_sprites`]), then the stones ([`scatter_stones`]).
pub fn generate_dirt_pattern(level: &mut LevelSim, large_sprites: &SpriteSet, draws: &mut Draws)
    requires
        old(level).wf(),
        1 <= old(level).width <= MAX_DIM,
        1 <= old(level).height <= MAX_DIM,
        large_sprites.wf(),
        large_sprites.frame_len() >= 256,
        73 <= large_sprites.count,
        old(draws).wf(),
    ensures
        final(draws).wf(),
        final(level).wf(),
        final(level).width == old(level).width,
        final(level).height == old(level).height,
        ({
            let w = old(level).width;
            let h = old(level).height;
            let (field, t1) = read_field(old(draws)@, (w * h) as nat, w as nat, h as nat);
            let (splats, t2) = tape_bound(t1, 100);
            let (ps, t3) = read_placements(t2, splats as nat, w, h, 69);
            let (stones, t4) = tape_bound(t3, 15);
            let (qs, t5) = read_placements(t4, stones as nat, w, h, 56);
            &&& final(draws)@ == t5
            &&& exists|ls: Seq<LevelSim>, ms: Seq<LevelSim>| {
                &&& #[trigger] placed_chain(ls, *large_sprites, ps, false)
                &&& #[trigger] placed_chain(ms, *large_sprites, qs, true)
                &&& ls[0].width == w
                &&& ls[0].height == h
                &&& ls[0].material_flags == old(level).material_flags
                &&& ls[0].material_id@.len() == old(level).material_id@.len()
                &&& forall|x: int, y: int| #[trigger] old(level).in_bounds(x, y) ==>
                    ls[0].material_id@[old(level).cell(x, y)] == field_value(field, w as nat, h as nat, x as nat, y as nat)
                &&& ms[0] == ls.last()
                &&& ms.last() == *final(level)
            }
        }),
{
    let ghost lv0 = *level;
    let field = field_draws(level.width, level.height, draws);
    generate_dirt_field(level, &field);
    let ghost t1 = draws@;
    let ghost noise = *level;
    splat_large_sprites(level, large_sprites, draws);
    let ghost t3 = draws@;
    let ghost mid = *level;
    scatter_stones(level, large_sprites, draws);
    proof {
        let w = lv0.width;
        let h = lv0.height;
        let (splats, t2) = tape_bound(t1, 100);
        let ps = read_placements(t2, splats as nat, w, h, 69).0;
        let (stones, t4) = tape_bound(t3, 15);
        let qs = read_placements(t4, stones as nat, w, h, 56).0;
        let ls = choose|ls: Seq<LevelSim>| #[trigger] placed_chain(ls, *large_sprites, ps, false)
            && ls[0] == noise && ls.last() == mid;
        let ms = choose|ms: Seq<LevelSim>| #[trigger] placed_chain(ms, *large_sprites, qs, true)
            && ms[0] == mid && ms.last() == *level;
        assert(placed_chain(ls, *large_sprites, ps, false) && placed_chain(ms, *large_sprites, qs, true));
    }
}

// ---------------------------------------------------------------------------
// Tunnels
// ---------------------------------------------------------------------------

/// A stamp of the tunnel walk: the dirt effect's window corner and its fill draw.
pub type Stamp = (i32, i32, u32);

/// `n` steps of `(dx, dy)` from `(cx, cy)`, each stamping with a fill draw
/// below `rframe` read from the tape.
pub open spec fn walk_steps(cx: i32, cy: i32, dx: i32, dy: i32, n: nat, t: DrawTape, rframe: u32) -> (Seq<Stamp>, DrawTape)
    decreases n,
{
    if n == 0 {
        (Seq::empty(), t)
    } else {
        let (s, t1) = walk_steps(cx, cy, dx, dy, (n - 1) as nat, t, rframe);
        let (f, t2) = tape_bound(t1, rframe);
        (s.push(((cx + n * dx) as i32, (cy + n * dy) as i32, f)), t2)
    }
}

/// `m` segments of a tunnel from `(cx, cy)` with step `(dx, dy)`: each reads
/// its step count below 5, takes that many stamped steps, goes back one step
/// before where it started, and is nudged by `(draw below 7 - 3, draw below
/// 15 - 7)`. The result is the stamps, the end position and the tape.
pub open spec fn walk_segments(cx: i32, cy: i32, dx: i32, dy: i32, m: nat, t: DrawTape, rframe: u32)
    -> (Seq<Stamp>, i32, i32, DrawTape)
    decreases m,
{
    if m == 0 {
        (Seq::empty(), cx, cy, t)
    } else {
        let (s, x, y, t1) = walk_segments(cx, cy, dx, dy, (m - 1) as nat, t, rframe);
        let (c3, t2) = tape_bound(t1, 5);
        let (s2, t3) = walk_steps(x, y, dx, dy, c3 as nat, t2, rframe);
        let (jx, t4) = tape_bound(t3, 7);
        let (jy, t5) = tape_bound(t4, 15);
        (s + s2, (x - dx + jx - 3) as i32, (y - dy + jy - 7) as i32, t5)
    }
}

/// `n` tunnels on a `w x h` level: each reads its start `(draw below w - 8,
/// draw below h - 8)`, its step `(draw below 11 - 5, draw below 5 - 2)` and its
/// segment count below 12, then walks ([`walk_segments`]).
pub open spec fn walk_tunnels(n: nat, t: DrawTape, w: i32, h: i32, rframe: u32) -> (Seq<Stamp>, DrawTape)
    decreases n,
{
    if n == 0 {
        (Seq::empty(), t)
    } else {
        let (s, t1) = walk_tunnels((n - 1) as nat, t, w, h, rframe);
        let (ax, t2) = tape_bound(t1, w as u32);
        let (ay, t3) = tape_bound(t2, h as u32);
        let (bx, t4) = tape_bound(t3, 11);
        let (by, t5) = tape_bound(t4, 5);
        let (m, t6) = tape_bound(t5, 12);
        let (s2, _, _, t7) = walk_segments((ax - 8) as i32, (ay - 8) as i32, (bx - 5) as i32, (by - 2) as i32,
            m as nat, t6, rframe);
        (s + s2, t7)
    }
}

/// The tunnel walk of a `w x h` level: a tunnel count of 5 plus a draw below
/// 50, then the tunnels ([`walk_tunnels`]).
pub open spec fn tunnel_stamps(t: DrawTape, w: i32, h: i32, rframe: u32) -> (Seq<Stamp>, DrawTape) {
    let (c, t1) = tape_bound(t, 50);
    walk_tunnels((c + 5) as nat, t1, w, h, rframe)
}

/// A stamp lies within 200 pixels of the level and its fill draw is below
/// `rframe` (or 0 when `rframe` is 0).
pub open spec fn stamp_ok(s: Stamp, w: i32, h: i32, rframe: u32) -> bool {
    &&& -200 <= s.0 <= w + 200
    &&& -200 <= s.1 <= h + 200
    &&& if rframe > 0 { s.2 < rframe } else { s.2 == 0 }
}

/// The stamps of the tunnel walk ([`tunnel_stamps`]), reading `draws`; the
/// fill draws are below `rframe`.
pub fn tunnel_walk(width: i32, height: i32, rframe: u32, draws: &mut Draws) -> (r: Vec<Stamp>)
    requires
        1 <= width <= MAX_DIM,
        1 <= height <= MAX_DIM,
        old(draws).wf(),
    ensures
        final(draws).wf(),
        (r@, final(draws)@) == tunnel_stamps(old(draws)@, width, height, rframe),
        forall|k: int| 0 <= k < r@.len() ==> stamp_ok(#[trigger] r@[k], width, height, rframe),
{
    let ghost t0 = draws@;
    let c = draws.bound(50);
    let ghost t1 = draws@;
    let count = c + 5;
    let mut out: Vec<Stamp> = Vec::new();
    let mut i: u32 = 0;
    while i < count
        invariant
            i <= count,
            1 <= width <= MAX_DIM,
            1 <= height <= MAX_DIM,
            draws.wf(),
            (out@, draws@) == walk_tunnels(i as nat, t1, width, height, rframe),
            forall|k: int| 0 <= k < out@.len() ==> stamp_ok(#[trigger] out@[k], width, height, rframe),
        decreases count - i,
    {
        let ghost pre = out@;
        let ghost tp = draws@;
        let ax = draws.bound(width as u32);
        let ay = draws.bound(height as u32);
        let bx = draws.bound(11);
        let by = draws.bound(5);
        let m = draws.bound(12);
        let ghost t6 = draws@;
        let cx0 = ax as i32 - 8;
        let cy0 = ay as i32 - 8;
        let dx = bx as i32 - 5;
        let dy = by as i32 - 2;
        let mut cx = cx0;
        let mut cy = cy0;
        let mut j: u32 = 0;
        while j < m
            invariant
                j <= m,
                m < 12,
                -8 <= cx0 < width - 8,
                -8 <= cy0 < height - 8,
                -5 <= dx <= 5,
                -2 <= dy <= 2,
                cx0 - 8 * j <= cx <= cx0 + 8 * j,
                cy0 - 10 * j <= cy <= cy0 + 10 * j,
                1 <= width <= MAX_DIM,
                1 <= height <= MAX_DIM,
                draws.wf(),
                ({
                    let (s, x, y, t) = walk_segments(cx0, cy0, dx, dy, j as nat, t6, rframe);
                    &&& out@ == pre + s
                    &&& cx == x
                    &&& cy == y
                    &&& draws@ == t
                }),
                forall|k: int| 0 <= k < out@.len() ==> stamp_ok(#[trigger] out@[k], width, height, rframe),
            decreases m - j,
        {
            let ghost pre2 = out@;
            let c3 = draws.bound(5);
            let ghost t2 = draws@;
            let x0 = cx;
            let y0 = cy;
            let mut q: u32 = 0;
            while q < c3
                invariant
                    q <= c3,
                    c3 < 5,
                    -5 <= dx <= 5,
                    -2 <= dy <= 2,
                    -8 - 96 <= x0 <= width - 8 + 96,
                    -8 - 120 <= y0 <= height - 8 + 120,
                    cx == x0 + q * dx,
                    cy == y0 + q * dy,
                    x0 - 5 * q <= cx <= x0 + 5 * q,
                    y0 - 2 * q <= cy <= y0 + 2 * q,
                    1 <= width <= MAX_DIM,
                    1 <= height <= MAX_DIM,
                    draws.wf(),
                    ({
                        let (s, t) = walk_steps(x0, y0, dx, dy, q as nat, t2, rframe);
                        &&& out@ == pre2 + s
                        &&& draws@ == t
                    }),
                    forall|k: int| 0 <= k < out@.len() ==> stamp_ok(#[trigger] out@[k], width, height, rframe),
                decreases c3 - q,
            {
                let ghost pre3 = out@;
                proof {
                    assert((q + 1) * dx == q * dx + dx) by (nonlinear_arith);
                    assert((q + 1) * dy == q * dy + dy) by (nonlinear_arith);
                    lemma_tape_bound_below(draws@, rframe);
                }
                cx = cx + dx;
                cy = cy + dy;
                let f = draws.bound(rframe);
                out.push((cx, cy, f));
                proof {
                    let (s, t) = walk_steps(x0, y0, dx, dy, q as nat, t2, rframe);
                    assert(out@ =~= pre2 + s.push((cx, cy, f)));
                    assert(stamp_ok(out@.last(), width, height, rframe));
                    assert forall|k: int| 0 <= k < out@.len() implies stamp_ok(#[trigger] out@[k], width, height, rframe) by {
                        if k < pre3.len() {
                            assert(out@[k] == pre3[k]);
                        }
                    }
                }
                q += 1;
            }
            cx = x0 - dx;
            cy = y0 - dy;
            let jx = draws.bound(7);
            let jy = draws.bound(15);
            cx = cx + jx as i32 - 3;
            cy = cy + jy as i32 - 7;
            proof {
                let (s, x, y, t) = walk_segments(cx0, cy0, dx, dy, j as nat, t6, rframe);
                let (s2, _) = walk_steps(x, y, dx, dy, c3 as nat, t2, rframe);
                assert(out@ =~= pre + (s + s2));
            }
            j += 1;
        }
        proof {
            assert(out@ =~= pre + walk_segments(cx0, cy0, dx, dy, m as nat, t6, rframe).0);
        }
        i += 1;
    }
    out
}

/// Step `k` of a chain of levels: the `k`-th stamp of dirt effect `tex` with
/// its window at the stamp and fill frame `sframe` plus its draw.
pub open spec fn stamp_link(ls: Seq<LevelSim>, sp: SpriteSet, tex: Texture, stamps: Seq<Stamp>, k: int) -> bool {
    let s = stamps[k];
    cratered(ls[k], ls[k + 1], sp, tex, tex.sframe + s.2, s.0 as int, s.1 as int, true)
}

/// `ls` goes from `ls[0]` through every stamp of `stamps` in order.
pub open spec fn stamp_chain(ls: Seq<LevelSim>, sp: SpriteSet, tex: Texture, stamps: Seq<Stamp>) -> bool {
    &&& ls.len() == stamps.len() + 1
    &&& forall|k: int| 0 <= k < stamps.len() ==> #[trigger] stamp_link(ls, sp, tex, stamps, k)
}

/// Digs the worm tunnels of a random level: the stamps of the tunnel walk
/// ([`tunnel_stamps`], with the fill draws below the `rframe` of dirt effect 1)
/// each stamp dirt effect 1 with its window's top-left at the stamp, in order.
pub fn dig_tunnels(level: &mut LevelSim, large_sprites: &SpriteSet, textures: &[Texture], draws: &mut Draws)
    requires
        old(level).wf(),
        1 <= old(level).width <= MAX_DIM,
        1 <= old(level).height <= MAX_DIM,
        crater_ok(*large_sprites, textures@, 1),
        old(draws).wf(),
    ensures
        final(draws).wf(),
        final(level).wf(),
        ({
            let tex = textures@[1];
            let (stamps, t) = tunnel_stamps(old(draws)@, old(level).width, old(level).height, tex.rframe as u32);
            &&& final(draws)@ == t
            &&& exists|ls: Seq<LevelSim>| #[trigger] stamp_chain(ls, *large_sprites, tex, stamps)
                && ls[0] == *old(level) && ls.last() == *final(level)
        }),
{
    let ghost lv0 = *level;
    let tex = textures[1];
    let stamps = tunnel_walk(level.width, level.height, tex.rframe as u32, draws);
    let ghost mut ls: Seq<LevelSim> = seq![*level];
    let mut k: usize = 0;
    while k < stamps.len()
        invariant
            k <= stamps@.len(),
            level.wf(),
            level.width == lv0.width,
            level.height == lv0.height,
            1 <= lv0.width <= MAX_DIM,
            1 <= lv0.height <= MAX_DIM,
            crater_ok(*large_sprites, textures@, 1),
            tex == textures@[1],
            forall|q: int| 0 <= q < stamps@.len() ==> stamp_ok(#[trigger] stamps@[q], lv0.width, lv0.height, tex.rframe as u32),
            ls.len() == k + 1,
            forall|q: int| 0 <= q < k ==> #[trigger] stamp_link(ls, *large_sprites, tex, stamps@, q),
            ls[0] == lv0,
            ls.last() == *level,
        decreases stamps@.len() - k,
    {
        let (x, y, f) = stamps[k];
        assert(stamp_ok(stamps@[k as int], lv0.width, lv0.height, tex.rframe as u32));
        draw_dirt_effect(level, large_sprites, textures, 1, x, y, f);
        proof {
            let next = ls.push(*level);
            assert(stamp_link(next, *large_sprites, tex, stamps@, k as int));
            assert forall|q: int| 0 <= q < k + 1 implies #[trigger] stamp_link(next, *large_sprites, tex, stamps@, q) by {
                if q < k {
                    assert(stamp_link(ls, *large_sprites, tex, stamps@, q));
                    assert(next[q] == ls[q] && next[q + 1] == ls[q + 1]);
                }
            }
            ls = next;
        }
        k += 1;
    }
    assert(ls.len() == stamps@.len() + 1);
    assert(stamp_chain(ls, *large_sprites, tex, stamps@));
    assert(stamps@ == tunnel_stamps(old(draws)@, lv0.width, lv0.height, textures@[1].rframe as u32).0);
    assert(ls[0] == *old(level));
}

} // verus!
