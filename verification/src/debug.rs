//! Read-only ASCII view of a [`SimState`]: the terrain downsampled into
//! `scale x scale` blocks, then the objects stamped over it.
//!
//! Terrain glyphs: `' '` air, `'.'` dirt, `'#'` rock (rock wins within a
//! block). Overlay glyphs, stamped in this order so that later ones win on a
//! shared cell: `':'` blood, `'*'` debris, `'+'` projectile, `'x'` explosion,
//! `'$'` health bonus (`frame == 1`), `'w'` weapon bonus, then the worms:
//! `'@'` worm 0, `'&'` any later worm, `'o'` an invisible worm.

use vstd::prelude::*;
use crate::fixed::{ftoi, spec_ftoi};
use crate::pool::live_values;
use crate::state::{
    has_flag, lemma_cell_in_range, BObject, Bonus, LevelSim, NObject, SObject, SimState, WObject,
    WormState, MAT_DIRT, MAT_DIRT2, MAT_ROCK,
};

verus! {

/// `' '`: air.
pub const GLYPH_AIR: u8 = 32;
/// `'.'`: dirt.
pub const GLYPH_DIRT: u8 = 46;
/// `'#'`: rock.
pub const GLYPH_ROCK: u8 = 35;
/// `':'`: a blood particle.
pub const GLYPH_BLOOD: u8 = 58;
/// `'*'`: a debris object.
pub const GLYPH_DEBRIS: u8 = 42;
/// `'+'`: a projectile.
pub const GLYPH_PROJECTILE: u8 = 43;
/// `'x'`: an explosion object.
pub const GLYPH_EXPLOSION: u8 = 120;
/// `'$'`: a health bonus.
pub const GLYPH_HEALTH: u8 = 36;
/// `'w'`: a weapon bonus.
pub const GLYPH_WEAPON: u8 = 119;
/// `'o'`: an invisible worm.
pub const GLYPH_HIDDEN_WORM: u8 = 111;
/// `'@'`: worm 0.
pub const GLYPH_FIRST_WORM: u8 = 64;
/// `'&'`: any later worm.
pub const GLYPH_OTHER_WORM: u8 = 38;
/// The row separator.
pub const NEWLINE: u8 = 10;

/// Rendering options for [`render_ascii`].
#[derive(Clone, Copy, PartialEq, Eq, Debug)]
pub struct RenderOpts {
    /// Downsample factor: each output cell summarizes a `scale x scale` block
    /// of level pixels. Values below 1 act as 1.
    pub scale: i32,
}

/// The downsample factor actually used.
pub open spec fn eff_scale(scale: i32) -> int {
    if scale < 1 { 1 } else { scale as int }
}

/// Number of `s`-wide blocks covering `n` pixels.
pub open spec fn blocks(n: int, s: int) -> int {
    (n + s - 1) / s
}

/// Pixel `(bx, by)` of block `(ox, oy)` lies in the level and carries a flag of `mask`.
pub open spec fn block_pixel_has(level: LevelSim, s: int, ox: int, oy: int, bx: int, by: int, mask: u8) -> bool {
    let x = ox * s + bx;
    let y = oy * s + by;
    &&& 0 <= x < level.width
    &&& 0 <= y < level.height
    &&& has_flag(level.flags_xy(x, y), mask)
}

/// Some pixel of block `(ox, oy)` carries a flag of `mask`.
pub open spec fn block_has(level: LevelSim, s: int, ox: int, oy: int, mask: u8) -> bool {
    exists|bx: int, by: int| 0 <= bx < s && 0 <= by < s && #[trigger] block_pixel_has(level, s, ox, oy, bx, by, mask)
}

/// The terrain glyph of block `(ox, oy)`.
pub open spec fn terrain_glyph(level: LevelSim, s: int, ox: int, oy: int) -> u8 {
    if block_has(level, s, ox, oy, MAT_ROCK) {
        GLYPH_ROCK
    } else if block_has(level, s, ox, oy, MAT_DIRT | MAT_DIRT2) {
        GLYPH_DIRT
    } else {
        GLYPH_AIR
    }
}

/// The terrain grid, row-major with `ow` cells per row.
pub open spec fn terrain_grid(level: LevelSim, s: int, ow: int, oh: int) -> Seq<u8> {
    Seq::new((ow * oh) as nat, |k: int| terrain_glyph(level, s, k % ow, k / ow))
}

/// A glyph stamped at pixel `(x, y)`.
pub type Stamp = (i32, i32, u8);

pub open spec fn blood_stamps(s: Seq<BObject>) -> Seq<Stamp> {
    s.map_values(|b: BObject| (spec_ftoi(b.pos.x) as i32, spec_ftoi(b.pos.y) as i32, GLYPH_BLOOD))
}

pub open spec fn debris_stamps(s: Seq<NObject>) -> Seq<Stamp> {
    s.map_values(|n: NObject| (spec_ftoi(n.pos.x) as i32, spec_ftoi(n.pos.y) as i32, GLYPH_DEBRIS))
}

pub open spec fn projectile_stamps(s: Seq<WObject>) -> Seq<Stamp> {
    s.map_values(|p: WObject| (spec_ftoi(p.pos.x) as i32, spec_ftoi(p.pos.y) as i32, GLYPH_PROJECTILE))
}

pub open spec fn explosion_stamps(s: Seq<SObject>) -> Seq<Stamp> {
    s.map_values(|o: SObject| (o.x, o.y, GLYPH_EXPLOSION))
}

/// Bonuses are stamped at their raw `x`/`y` fields.
pub open spec fn bonus_stamps(s: Seq<Bonus>) -> Seq<Stamp> {
    s.map_values(|b: Bonus| (b.x, b.y, if b.frame == 1 { GLYPH_HEALTH } else { GLYPH_WEAPON }))
}

pub open spec fn worm_glyph(i: int, w: WormState) -> u8 {
    if !w.visible {
        GLYPH_HIDDEN_WORM
    } else if i == 0 {
        GLYPH_FIRST_WORM
    } else {
        GLYPH_OTHER_WORM
    }
}

pub open spec fn worm_stamps(s: Seq<WormState>) -> Seq<Stamp> {
    s.map(|i: int, w: WormState| (spec_ftoi(w.pos.x) as i32, spec_ftoi(w.pos.y) as i32, worm_glyph(i, w)))
}

/// Every stamp of the state, in stamping order.
pub open spec fn all_stamps(state: SimState) -> Seq<Stamp> {
    blood_stamps(state.bobjects@)
        + debris_stamps(live_values(state.nobjects@))
        + projectile_stamps(live_values(state.wobjects@))
        + explosion_stamps(live_values(state.sobjects@))
        + bonus_stamps(live_values(state.bonuses@))
        + worm_stamps(state.worms@)
}

/// `g` with stamp `st` applied: its glyph replaces the cell holding pixel
/// `(x, y)`, if that cell exists.
pub open spec fn put(g: Seq<u8>, st: Stamp, s: int, ow: int, oh: int) -> Seq<u8> {
    let ox = st.0 as int / s;
    let oy = st.1 as int / s;
    if 0 <= ox < ow && 0 <= oy < oh {
        g.update(ox + oy * ow, st.2)
    } else {
        g
    }
}

/// `g` with the stamps applied in order.
pub open spec fn stamped(g: Seq<u8>, sts: Seq<Stamp>, s: int, ow: int, oh: int) -> Seq<u8>
    decreases sts.len(),
{
    if sts.len() == 0 {
        g
    } else {
        put(stamped(g, sts.drop_last(), s, ow, oh), sts.last(), s, ow, oh)
    }
}

/// The first `n` rows of `g`, each followed by a newline.
pub open spec fn rows_text(g: Seq<u8>, ow: int, n: int) -> Seq<u8>
    decreases n,
{
    if n <= 0 {
        Seq::empty()
    } else {
        rows_text(g, ow, n - 1) + g.subrange((n - 1) * ow, n * ow) + seq![NEWLINE]
    }
}

/// The bytes of the rendering of `state`.
pub open spec fn rendered(state: SimState, scale: i32) -> Seq<u8> {
    let s = eff_scale(scale);
    let ow = blocks(state.level.width as int, s);
    let oh = blocks(state.level.height as int, s);
    rows_text(stamped(terrain_grid(state.level, s, ow, oh), all_stamps(state), s, ow, oh), ow, oh)
}

/// `n` pixels need at most `n` blocks, and the last block ends within `s - 1`
/// pixels past `n`.
proof fn lemma_blocks(n: int, s: int)
    requires
        0 <= n,
        1 <= s,
    ensures
        0 <= blocks(n, s) <= n,
        blocks(n, s) * s <= n + s - 1,
{
    assert(0 <= (n + s - 1) / s) by (nonlinear_arith)
        requires 0 <= n, 1 <= s;
    assert(((n + s - 1) / s) * s <= n + s - 1) by (nonlinear_arith)
        requires 0 <= n, 1 <= s;
    if n >= 1 {
        assert((n + s - 1) / s <= n) by (nonlinear_arith)
            requires 1 <= n, 1 <= s;
    } else {
        assert((s - 1) / s == 0) by (nonlinear_arith)
            requires 1 <= s;
    }
}

/// The terrain glyph of block `(ox, oy)`.
fn block_glyph(level: &LevelSim, s: i32, ox: i32, oy: i32) -> (r: u8)
    requires
        level.wf(),
        1 <= s,
        0 <= ox,
        0 <= oy,
        ox * s + s - 1 <= i32::MAX,
        oy * s + s - 1 <= i32::MAX,
    ensures
        r == terrain_glyph(*level, s as int, ox as int, oy as int),
{
    let ghost lv = *level;
    let mut rock = false;
    let mut dirt = false;
    let mut by: i32 = 0;
    assert(0 <= ox * s && 0 <= oy * s) by (nonlinear_arith)
        requires 0 <= ox, 0 <= oy, 1 <= s;
    while by < s
        invariant
            level.wf(),
            lv == *level,
            1 <= s,
            0 <= ox * s,
            0 <= oy * s,
            ox * s + s - 1 <= i32::MAX,
            oy * s + s - 1 <= i32::MAX,
            0 <= by <= s,
            rock == exists|bx: int, b: int| 0 <= bx < s && 0 <= b < by && #[trigger] block_pixel_has(lv, s as int, ox as int, oy as int, bx, b, MAT_ROCK),
            dirt == exists|bx: int, b: int| 0 <= bx < s && 0 <= b < by && #[trigger] block_pixel_has(lv, s as int, ox as int, oy as int, bx, b, MAT_DIRT | MAT_DIRT2),
        decreases s - by,
    {
        let mut bx: i32 = 0;
        while bx < s
            invariant
                level.wf(),
                lv == *level,
                1 <= s,
                0 <= ox * s,
                0 <= oy * s,
                ox * s + s - 1 <= i32::MAX,
                oy * s + s - 1 <= i32::MAX,
                0 <= by < s,
                0 <= bx <= s,
                rock == ((exists|x: int, b: int| 0 <= x < s && 0 <= b < by && #[trigger] block_pixel_has(lv, s as int, ox as int, oy as int, x, b, MAT_ROCK))
                    || (exists|x: int| 0 <= x < bx && #[trigger] block_pixel_has(lv, s as int, ox as int, oy as int, x, by as int, MAT_ROCK))),
                dirt == ((exists|x: int, b: int| 0 <= x < s && 0 <= b < by && #[trigger] block_pixel_has(lv, s as int, ox as int, oy as int, x, b, MAT_DIRT | MAT_DIRT2))
                    || (exists|x: int| 0 <= x < bx && #[trigger] block_pixel_has(lv, s as int, ox as int, oy as int, x, by as int, MAT_DIRT | MAT_DIRT2))),
            decreases s - bx,
        {
            let x = ox * s + bx;
            let y = oy * s + by;
            if x < level.width && y < level.height {
                let r = level.rock(x, y);
                let d = level.any_dirt(x, y);
                assert(r == block_pixel_has(lv, s as int, ox as int, oy as int, bx as int, by as int, MAT_ROCK));
                assert(d == block_pixel_has(lv, s as int, ox as int, oy as int, bx as int, by as int, MAT_DIRT | MAT_DIRT2));
                rock = rock || r;
                dirt = dirt || d;
            } else {
                assert(!block_pixel_has(lv, s as int, ox as int, oy as int, bx as int, by as int, MAT_ROCK));
                assert(!block_pixel_has(lv, s as int, ox as int, oy as int, bx as int, by as int, MAT_DIRT | MAT_DIRT2));
            }
            bx += 1;
        }
        by += 1;
    }
    if rock {
        GLYPH_ROCK
    } else if dirt {
        GLYPH_DIRT
    } else {
        GLYPH_AIR
    }
}

/// The terrain grid of `level` in row-major order.
fn terrain(level: &LevelSim, s: i32, ow: i32, oh: i32) -> (g: Vec<u8>)
    requires
        level.wf(),
        1 <= s,
        0 <= ow,
        0 <= oh,
        ow * s <= level.width + s - 1,
        oh * s <= level.height + s - 1,
        level.width + s - 1 <= i32::MAX,
        level.height + s - 1 <= i32::MAX,
    ensures
        g@ == terrain_grid(*level, s as int, ow as int, oh as int),
        forall|k: int| 0 <= k < g@.len() ==> #[trigger] g@[k] < 128,
{
    let mut g: Vec<u8> = Vec::new();
    let mut oy: i32 = 0;
    while oy < oh
        invariant
            level.wf(),
            1 <= s,
            0 <= ow,
            0 <= oy <= oh,
            ow * s <= level.width + s - 1,
            oh * s <= level.height + s - 1,
            level.width + s - 1 <= i32::MAX,
            level.height + s - 1 <= i32::MAX,
            g@.len() == oy * ow,
            forall|k: int| 0 <= k < g@.len() ==> #[trigger] g@[k] == terrain_glyph(*level, s as int, k % ow as int, k / ow as int),
            forall|k: int| 0 <= k < g@.len() ==> #[trigger] g@[k] < 128,
        decreases oh - oy,
    {
        let mut ox: i32 = 0;
        while ox < ow
            invariant
                level.wf(),
                1 <= s,
                0 <= ox <= ow,
                0 <= oy < oh,
                ow * s <= level.width + s - 1,
                oh * s <= level.height + s - 1,
                level.width + s - 1 <= i32::MAX,
                level.height + s - 1 <= i32::MAX,
                g@.len() == oy * ow + ox,
                forall|k: int| 0 <= k < g@.len() ==> #[trigger] g@[k] == terrain_glyph(*level, s as int, k % ow as int, k / ow as int),
                forall|k: int| 0 <= k < g@.len() ==> #[trigger] g@[k] < 128,
            decreases ow - ox,
        {
            assert(ox * s + s - 1 <= i32::MAX && oy * s + s - 1 <= i32::MAX) by (nonlinear_arith)
                requires
                    0 <= ox < ow,
                    0 <= oy < oh,
                    1 <= s,
                    ow * s <= level.width + s - 1,
                    oh * s <= level.height + s - 1,
                    level.width + s - 1 <= i32::MAX,
                    level.height + s - 1 <= i32::MAX;
            let c = block_glyph(level, s, ox, oy);
            proof {
                vstd::arithmetic::div_mod::lemma_fundamental_div_mod_converse(
                    oy * ow + ox, ow as int, oy as int, ox as int);
            }
            g.push(c);
            ox += 1;
        }
        assert(oy * ow + ow == (oy + 1) * ow) by (nonlinear_arith);
        oy += 1;
    }
    proof {
        assert(g@.len() == ow * oh) by (nonlinear_arith)
            requires g@.len() == oh * ow;
        assert(g@ =~= terrain_grid(*level, s as int, ow as int, oh as int));
    }
    g
}

/// Every stamp of `state`, in stamping order.
fn collect_stamps(state: &SimState) -> (r: Vec<Stamp>)
    ensures
        r@ == all_stamps(*state),
        forall|k: int| 0 <= k < r@.len() ==> #[trigger] r@[k].2 < 128,
{
    let mut out: Vec<Stamp> = Vec::new();
    let bs = state.bobjects.iter();
    let mut i: usize = 0;
    while i < bs.len()
        invariant
            i <= bs@.len(),
            bs@.len() == state.bobjects@.len(),
            forall|k: int| 0 <= k < bs@.len() ==> *#[trigger] bs@[k] == state.bobjects@[k],
            out@ == blood_stamps(state.bobjects@.take(i as int)),
            forall|k: int| 0 <= k < out@.len() ==> #[trigger] out@[k].2 < 128,
        decreases bs.len() - i,
    {
        let b = bs[i];
        out.push((ftoi(b.pos.x), ftoi(b.pos.y), GLYPH_BLOOD));
        assert(state.bobjects@.take(i + 1) =~= state.bobjects@.take(i as int).push(*b));
        assert(out@ =~= blood_stamps(state.bobjects@.take(i + 1)));
        i += 1;
    }
    assert(state.bobjects@.take(i as int) =~= state.bobjects@);
    let ghost pre = out@;
    let ns = state.nobjects.iter();
    let ghost nv = live_values(state.nobjects@);
    let mut i: usize = 0;
    while i < ns.len()
        invariant
            i <= ns@.len(),
            ns@.len() == nv.len(),
            forall|k: int| 0 <= k < ns@.len() ==> *#[trigger] ns@[k] == nv[k],
            out@ == pre + debris_stamps(nv.take(i as int)),
            forall|k: int| 0 <= k < out@.len() ==> #[trigger] out@[k].2 < 128,
        decreases ns.len() - i,
    {
        let n = ns[i];
        out.push((ftoi(n.pos.x), ftoi(n.pos.y), GLYPH_DEBRIS));
        assert(nv.take(i + 1) =~= nv.take(i as int).push(*n));
        assert(out@ =~= pre + debris_stamps(nv.take(i + 1)));
        i += 1;
    }
    assert(nv.take(i as int) =~= nv);
    let ghost pre = out@;
    let ps = state.wobjects.iter();
    let ghost pv = live_values(state.wobjects@);
    let mut i: usize = 0;
    while i < ps.len()
        invariant
            i <= ps@.len(),
            ps@.len() == pv.len(),
            forall|k: int| 0 <= k < ps@.len() ==> *#[trigger] ps@[k] == pv[k],
            out@ == pre + projectile_stamps(pv.take(i as int)),
            forall|k: int| 0 <= k < out@.len() ==> #[trigger] out@[k].2 < 128,
        decreases ps.len() - i,
    {
        let p = ps[i];
        out.push((ftoi(p.pos.x), ftoi(p.pos.y), GLYPH_PROJECTILE));
        assert(pv.take(i + 1) =~= pv.take(i as int).push(*p));
        assert(out@ =~= pre + projectile_stamps(pv.take(i + 1)));
        i += 1;
    }
    assert(pv.take(i as int) =~= pv);
    let ghost pre = out@;
    let ss = state.sobjects.iter();
    let ghost sv = live_values(state.sobjects@);
    let mut i: usize = 0;
    while i < ss.len()
        invariant
            i <= ss@.len(),
            ss@.len() == sv.len(),
            forall|k: int| 0 <= k < ss@.len() ==> *#[trigger] ss@[k] == sv[k],
            out@ == pre + explosion_stamps(sv.take(i as int)),
            forall|k: int| 0 <= k < out@.len() ==> #[trigger] out@[k].2 < 128,
        decreases ss.len() - i,
    {
        let o = ss[i];
        out.push((o.x, o.y, GLYPH_EXPLOSION));
        assert(sv.take(i + 1) =~= sv.take(i as int).push(*o));
        assert(out@ =~= pre + explosion_stamps(sv.take(i + 1)));
        i += 1;
    }
    assert(sv.take(i as int) =~= sv);
    let ghost pre = out@;
    let bos = state.bonuses.iter();
    let ghost bv = live_values(state.bonuses@);
    let mut i: usize = 0;
    while i < bos.len()
        invariant
            i <= bos@.len(),
            bos@.len() == bv.len(),
            forall|k: int| 0 <= k < bos@.len() ==> *#[trigger] bos@[k] == bv[k],
            out@ == pre + bonus_stamps(bv.take(i as int)),
            forall|k: int| 0 <= k < out@.len() ==> #[trigger] out@[k].2 < 128,
        decreases bos.len() - i,
    {
        let bo = bos[i];
        let glyph = if bo.frame == 1 { GLYPH_HEALTH } else { GLYPH_WEAPON };
        out.push((bo.x, bo.y, glyph));
        assert(bv.take(i + 1) =~= bv.take(i as int).push(*bo));
        assert(out@ =~= pre + bonus_stamps(bv.take(i + 1)));
        i += 1;
    }
    assert(bv.take(i as int) =~= bv);
    let ghost pre = out@;
    let mut i: usize = 0;
    while i < state.worms.len()
        invariant
            i <= state.worms@.len(),
            out@ == pre + worm_stamps(state.worms@.take(i as int)),
            forall|k: int| 0 <= k < out@.len() ==> #[trigger] out@[k].2 < 128,
        decreases state.worms.len() - i,
    {
        let wm = &state.worms[i];
        let glyph = if !wm.visible {
            GLYPH_HIDDEN_WORM
        } else if i == 0 {
            GLYPH_FIRST_WORM
        } else {
            GLYPH_OTHER_WORM
        };
        out.push((ftoi(wm.pos.x), ftoi(wm.pos.y), glyph));
        assert(state.worms@.take(i + 1) =~= state.worms@.take(i as int).push(*wm));
        assert(out@ =~= pre + worm_stamps(state.worms@.take(i + 1)));
        i += 1;
    }
    assert(state.worms@.take(i as int) =~= state.worms@);
    out
}

/// Applies one stamp to the grid.
fn put_exec(g: &mut Vec<u8>, st: Stamp, s: i32, ow: i32, oh: i32)
    requires
        1 <= s,
        0 <= ow,
        0 <= oh,
        old(g)@.len() == ow * oh,
        ow * oh <= i32::MAX,
    ensures
        final(g)@ == put(old(g)@, st, s as int, ow as int, oh as int),
        final(g)@.len() == old(g)@.len(),
        forall|k: int| 0 <= k < final(g)@.len() ==> #[trigger] final(g)@[k] == old(g)@[k] || final(g)@[k] == st.2,
{
    let (px, py, glyph) = st;
    if px >= 0 && py >= 0 {
        let ox = px / s;
        let oy = py / s;
        if ox < ow && oy < oh {
            proof {
                lemma_cell_in_range(ox as int, oy as int, ow as int, oh as int);
            }
            g.set((ox + oy * ow) as usize, glyph);
        }
    } else {
        assert(px / s < 0 || py / s < 0) by (nonlinear_arith)
            requires 1 <= s, px < 0 || py < 0;
    }
}

/// The grid with every stamp applied in order.
fn apply_stamps(g: &mut Vec<u8>, sts: &Vec<Stamp>, s: i32, ow: i32, oh: i32)
    requires
        1 <= s,
        0 <= ow,
        0 <= oh,
        old(g)@.len() == ow * oh,
        ow * oh <= i32::MAX,
        forall|k: int| 0 <= k < old(g)@.len() ==> #[trigger] old(g)@[k] < 128,
        forall|k: int| 0 <= k < sts@.len() ==> #[trigger] sts@[k].2 < 128,
    ensures
        final(g)@ == stamped(old(g)@, sts@, s as int, ow as int, oh as int),
        final(g)@.len() == ow * oh,
        forall|k: int| 0 <= k < final(g)@.len() ==> #[trigger] final(g)@[k] < 128,
{
    let ghost g0 = g@;
    let mut i: usize = 0;
    while i < sts.len()
        invariant
            1 <= s,
            0 <= ow,
            0 <= oh,
            ow * oh <= i32::MAX,
            i <= sts@.len(),
            g@.len() == ow * oh,
            g@ == stamped(g0, sts@.take(i as int), s as int, ow as int, oh as int),
            forall|k: int| 0 <= k < g@.len() ==> #[trigger] g@[k] < 128,
            forall|k: int| 0 <= k < sts@.len() ==> #[trigger] sts@[k].2 < 128,
        decreases sts.len() - i,
    {
        assert(sts@.take(i + 1).drop_last() =~= sts@.take(i as int));
        assert(sts@[i as int].2 < 128);
        put_exec(g, sts[i], s, ow, oh);
        i += 1;
    }
    assert(sts@.take(i as int) =~= sts@);
}

/// The grid's rows, each followed by a newline.
fn grid_rows(g: &Vec<u8>, ow: i32, oh: i32) -> (r: Vec<u8>)
    requires
        0 <= ow,
        0 <= oh,
        g@.len() == ow * oh,
        ow * oh <= i32::MAX,
        forall|k: int| 0 <= k < g@.len() ==> #[trigger] g@[k] < 128,
    ensures
        r@ == rows_text(g@, ow as int, oh as int),
        forall|k: int| 0 <= k < r@.len() ==> #[trigger] r@[k] < 128,
{
    let mut out: Vec<u8> = Vec::new();
    let mut oy: i32 = 0;
    while oy < oh
        invariant
            0 <= ow,
            0 <= oy <= oh,
            g@.len() == ow * oh,
            ow * oh <= i32::MAX,
            forall|k: int| 0 <= k < g@.len() ==> #[trigger] g@[k] < 128,
            out@ == rows_text(g@, ow as int, oy as int),
            forall|k: int| 0 <= k < out@.len() ==> #[trigger] out@[k] < 128,
        decreases oh - oy,
    {
        let ghost pre = out@;
        assert(oy * ow + ow <= ow * oh) by (nonlinear_arith)
            requires 0 <= oy < oh, 0 <= ow;
        let mut ox: i32 = 0;
        while ox < ow
            invariant
                oy * ow + ow <= ow * oh,
                0 <= ox <= ow,
                0 <= oy < oh,
                g@.len() == ow * oh,
                ow * oh <= i32::MAX,
                forall|k: int| 0 <= k < g@.len() ==> #[trigger] g@[k] < 128,
                pre == rows_text(g@, ow as int, oy as int),
                out@ == pre + g@.subrange(oy * ow, oy * ow + ox),
                forall|k: int| 0 <= k < out@.len() ==> #[trigger] out@[k] < 128,
            decreases ow - ox,
        {
            proof {
                lemma_cell_in_range(ox as int, oy as int, ow as int, oh as int);
            }
            let c = g[(ox + oy * ow) as usize];
            out.push(c);
            assert(out@ =~= pre + g@.subrange(oy * ow, oy * ow + ox + 1));
            ox += 1;
        }
        out.push(NEWLINE);
        assert(out@ =~= rows_text(g@, ow as int, oy + 1)) by {
            assert((oy + 1) * ow == oy * ow + ow) by (nonlinear_arith);
        }
        oy += 1;
    }
    out
}

/// The string of the ASCII bytes `bytes`, one `char` per byte.
///
/// Wraps `String::from_utf8`, which returns `Ok` with exactly these characters
/// for ASCII input (ASCII is valid UTF-8 and each ASCII byte is its own
/// character); the error arm is unreachable under the `requires`.
#[verifier::external_body]
fn ascii_string(bytes: Vec<u8>) -> (r: String)
    requires
        forall|k: int| 0 <= k < bytes@.len() ==> #[trigger] bytes@[k] < 128,
    ensures
        r@ == bytes@.map_values(|b: u8| b as char),
{
    match String::from_utf8(bytes) {
        Ok(s) => s,
        Err(_) => String::new(),
    }
}

/// Renders `state` as rows of ASCII cells separated by `'\n'`, with a trailing
/// newline. Never changes `state`.
pub fn render_ascii(state: &SimState, opts: &RenderOpts) -> (r: String)
    requires
        state.level.wf(),
        state.level.width + eff_scale(opts.scale) <= i32::MAX,
        state.level.height + eff_scale(opts.scale) <= i32::MAX,
    ensures
        r@ == rendered(*state, opts.scale).map_values(|b: u8| b as char),
{
    let w = state.level.width;
    let h = state.level.height;
    let s = if opts.scale < 1 { 1 } else { opts.scale };
    assert(s == eff_scale(opts.scale));
    let ow = (w + s - 1) / s;
    let oh = (h + s - 1) / s;
    proof {
        lemma_blocks(w as int, s as int);
        lemma_blocks(h as int, s as int);
        assert(ow * oh <= w * h) by (nonlinear_arith)
            requires 0 <= ow <= w, 0 <= oh <= h;
        assert(0 <= ow * oh) by (nonlinear_arith)
            requires 0 <= ow, 0 <= oh;
    }
    let mut g = terrain(&state.level, s, ow, oh);
    let sts = collect_stamps(state);
    apply_stamps(&mut g, &sts, s, ow, oh);
    let out = grid_rows(&g, ow, oh);
    ascii_string(out)
}

} // verus!
