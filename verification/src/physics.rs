//! Worm physics: the collision-reaction probe, the per-tick reaction pass with
//! its level-edge additions and nudge corrections, and the friction, bounce,
//! gravity and integration step.

use vstd::prelude::*;
use vstd::wrapping::i32_specs::{wrapping_add, wrapping_mul, wrapping_sub};
use crate::fixed::{ftoi, spec_ftoi, spec_wrapping_abs, spec_wrapping_div, spec_wrapping_neg,
    wrapping_abs_i32, wrapping_div_i32, wrapping_neg_i32, Vec2, FIXED_ONE};
use crate::state::{LevelSim, WormState};

verus! {

/// Reaction-direction indices.
pub const RF_DOWN: usize = 0;
pub const RF_LEFT: usize = 1;
pub const RF_UP: usize = 2;
pub const RF_RIGHT: usize = 3;

/// A probe offset.
#[derive(Clone, Copy)]
struct Point {
    x: i32,
    y: i32,
}

fn p(x: i32, y: i32) -> (r: Point)
    ensures
        r.x == x,
        r.y == y,
{
    Point { x, y }
}

/// How many probe offsets each direction samples: DOWN and UP 3, LEFT and RIGHT 7.
pub const COL_POINT_COUNT: [i32; 4] = [3, 7, 3, 7];

/// The number of probes of direction `dir`.
pub open spec fn col_count(dir: int) -> int {
    if dir == 0 || dir == 2 { 3 } else { 7 }
}

/// Probe `k` of direction `dir` as an offset `(dx, dy)`: DOWN probes
/// `(-1..=1, -4)`, UP probes `(-1..=1, 4)`, LEFT probes `(1, -3..=3)` and RIGHT
/// probes `(-1, -3..=3)`.
pub open spec fn col_offset(dir: int, k: int) -> (int, int) {
    if dir == 0 {
        (k - 1, -4)
    } else if dir == 1 {
        (1, k - 3)
    } else if dir == 2 {
        (k - 1, 4)
    } else {
        (-1, k - 3)
    }
}

fn col_point(dir: usize, k: usize) -> (r: Point)
    requires
        dir < 4,
        k < 7,
    ensures
        k < col_count(dir as int) ==> r.x == col_offset(dir as int, k as int).0
            && r.y == col_offset(dir as int, k as int).1,
{
    let k = k as i32;
    if dir == RF_DOWN {
        if k < 3 { p(k - 1, -4) } else { p(0, 0) }
    } else if dir == RF_LEFT {
        p(1, k - 3)
    } else if dir == RF_UP {
        if k < 3 { p(k - 1, 4) } else { p(0, 0) }
    } else {
        p(-1, k - 3)
    }
}

/// The number of the first `n` probes of direction `dir` around `(x, y)` that
/// land on a non-background pixel (read with wrap-around).
pub open spec fn probe_hits(level: LevelSim, x: i32, y: i32, dir: int, n: int) -> int
    decreases n,
{
    if n <= 0 {
        0
    } else {
        let (dx, dy) = col_offset(dir, n - 1);
        probe_hits(level, x, y, dir, n - 1)
            + if !level.spec_checked_mat_background((x + dx) as i32, (y + dy) as i32) { 1int } else { 0int }
    }
}

pub proof fn lemma_probe_hits_bound(level: LevelSim, x: i32, y: i32, dir: int, n: int)
    ensures
        0 <= probe_hits(level, x, y, dir, n) <= if n < 0 { 0 } else { n },
    decreases n,
{
    if n > 0 {
        lemma_probe_hits_bound(level, x, y, dir, n - 1);
    }
}

/// The reaction of direction `dir` at `(x, y)`: how many of its probes are solid.
pub open spec fn reaction(level: LevelSim, x: i32, y: i32, dir: int) -> int {
    probe_hits(level, x, y, dir, col_count(dir))
}

/// Probe coordinates fit `i32` around `(x, y)`.
pub open spec fn probe_fits(x: i32, y: i32) -> bool {
    i32::MIN + 1 <= x <= i32::MAX - 1 && i32::MIN + 4 <= y <= i32::MAX - 4
}

/// Resets `reacts[dir]` and counts into it the probes of direction `dir`
/// around `(x, y)` that land on a non-background pixel; the other directions
/// are untouched.
pub fn calculate_reaction_force(level: &LevelSim, x: i32, y: i32, dir: usize, reacts: &mut [i32; 4])
    requires
        dir < 4,
        probe_fits(x, y),
    ensures
        final(reacts)@ == old(reacts)@.update(dir as int, reaction(*level, x, y, dir as int) as i32),
{
    reacts[dir] = 0;
    let n = COL_POINT_COUNT[dir] as usize;
    assert(n == col_count(dir as int));
    let mut k: usize = 0;
    while k < n
        invariant
            dir < 4,
            probe_fits(x, y),
            n == col_count(dir as int),
            k <= n,
            reacts@ == old(reacts)@.update(dir as int, probe_hits(*level, x, y, dir as int, k as int) as i32),
        decreases n - k,
    {
        proof {
            lemma_probe_hits_bound(*level, x, y, dir as int, k as int);
        }
        let pt = col_point(dir, k);
        let col_x = x + pt.x;
        let col_y = y + pt.y;
        if !level.checked_mat_background(col_x, col_y) {
            reacts[dir] += 1;
        }
        k += 1;
    }
}

// ---------------------------------------------------------------------------
// PhysicsConsts
// ---------------------------------------------------------------------------

/// The constants and hacks the worm physics reads.
#[derive(Clone, Copy, PartialEq, Eq, Debug)]
pub struct PhysicsConsts {
    /// Added to `vel.y` each tick the worm is airborne.
    pub worm_gravity: i32,
    /// Horizontal friction numerator and denominator.
    pub worm_fric_mult: i32,
    pub worm_fric_div: i32,
    /// Bounce-versus-stop thresholds.
    pub min_bounce_up: i32,
    pub min_bounce_down: i32,
    pub min_bounce_left: i32,
    pub min_bounce_right: i32,
    /// Health lost on a hard bounce when the fall-damage hack is on.
    pub fall_damage_right: i32,
    pub fall_damage_down: i32,
    /// The float hack's level and anti-gravity power.
    pub worm_float_level: i32,
    pub worm_float_power: i32,
    pub h_fall_damage: bool,
    pub h_worm_float: bool,
}

/// The constants of the stock total conversion.
pub open spec fn default_physics() -> PhysicsConsts {
    PhysicsConsts {
        worm_gravity: 1500,
        worm_fric_mult: 89,
        worm_fric_div: 100,
        min_bounce_up: -53248i32,
        min_bounce_down: 53248,
        min_bounce_left: -53248i32,
        min_bounce_right: 53248,
        fall_damage_right: 0,
        fall_damage_down: 0,
        worm_float_level: 163,
        worm_float_power: -8386178i32,
        h_fall_damage: false,
        h_worm_float: false,
    }
}

impl Default for PhysicsConsts {
    /// The constants of the stock total conversion.
    fn default() -> (r: Self)
        ensures
            r == default_physics(),
    {
        PhysicsConsts {
            worm_gravity: 1500,
            worm_fric_mult: 89,
            worm_fric_div: 100,
            min_bounce_up: -53248,
            min_bounce_down: 53248,
            min_bounce_left: -53248,
            min_bounce_right: 53248,
            fall_damage_right: 0,
            fall_damage_down: 0,
            worm_float_level: 163,
            worm_float_power: -8386178,
            h_fall_damage: false,
            h_worm_float: false,
        }
    }
}

// ---------------------------------------------------------------------------
// Reaction pass
// ---------------------------------------------------------------------------

/// The level-edge additions applied after each probe of the reaction pass at
/// the integer position `(inx, iny)`: near the left edge RIGHT gains 5, near the
/// right edge LEFT gains 5; near the top DOWN gains 5, else (without the float
/// hack) near the bottom UP gains 5.
pub open spec fn edge_adds(level: LevelSim, c: PhysicsConsts, inx: i32, iny: i32, r: Seq<i32>) -> Seq<i32> {
    let r1 = if inx < 4 {
        r.update(3, (r[3] + 5) as i32)
    } else if inx > level.width - 5 {
        r.update(1, (r[1] + 5) as i32)
    } else {
        r
    };
    if iny < 5 {
        r1.update(0, (r1[0] + 5) as i32)
    } else if c.h_worm_float {
        r1
    } else if iny > level.height - 6 {
        r1.update(2, (r1[2] + 5) as i32)
    } else {
        r1
    }
}

/// The float hack's velocity change after each probe: below the float level
/// the float power is subtracted from `vy` (wrapping).
pub open spec fn float_adjust(c: PhysicsConsts, iny: i32, vy: i32) -> i32 {
    if iny >= 5 && c.h_worm_float && iny > c.worm_float_level {
        wrapping_sub(vy, c.worm_float_power)
    } else {
        vy
    }
}

/// The reaction pass from direction `i` on: probe direction `i` (resetting it),
/// then apply the edge additions and the float adjustment, for each of the
/// remaining directions in order. Returns the reactions and the vertical
/// velocity.
pub open spec fn reaction_pass(
    level: LevelSim, c: PhysicsConsts, inx: i32, iny: i32, r: Seq<i32>, vy: i32, i: int,
) -> (Seq<i32>, i32)
    decreases 4 - i,
{
    if i >= 4 || i < 0 {
        (r, vy)
    } else {
        let r1 = r.update(i, reaction(level, inx, iny, i) as i32);
        reaction_pass(level, c, inx, iny, edge_adds(level, c, inx, iny, r1), float_adjust(c, iny, vy), i + 1)
    }
}

/// Both side reactions re-probed at `(inx, iny)`.
pub open spec fn reprobe_sides(level: LevelSim, inx: i32, iny: i32, r: Seq<i32>) -> Seq<i32> {
    r.update(1, reaction(level, inx, iny, 1) as i32).update(3, reaction(level, inx, iny, 3) as i32)
}

/// The first nudge applies: pushed up, barely pushed down, pushed sideways.
pub open spec fn nudge_up_applies(r: Seq<i32>) -> bool {
    r[0] < 2 && r[2] > 0 && (r[1] > 0 || r[3] > 0)
}

/// The second nudge applies: pushed down, barely pushed up, pushed sideways.
pub open spec fn nudge_down_applies(r: Seq<i32>) -> bool {
    r[2] < 2 && r[0] > 0 && (r[1] > 0 || r[3] > 0)
}

/// The whole reaction orchestration of worm `w`: the reactions, the worm's new
/// vertical position and its new vertical velocity. The pass probes around
/// `ftoi(pos + vel)`; each nudge moves `pos.y` one pixel (up, then down) and
/// re-probes the side directions at the moved position.
pub open spec fn reactions_of(level: LevelSim, w: WormState, c: PhysicsConsts) -> (Seq<i32>, i32, i32) {
    let inx = spec_ftoi(wrapping_add(w.pos.x, w.vel.x)) as i32;
    let iny = spec_ftoi(wrapping_add(w.pos.y, w.vel.y)) as i32;
    let (r, vy) = reaction_pass(level, c, inx, iny, seq![0i32, 0i32, 0i32, 0i32], w.vel.y, 0);
    let (r2, py2) = if nudge_up_applies(r) {
        let py = wrapping_sub(w.pos.y, 65536);
        (reprobe_sides(level, inx, spec_ftoi(wrapping_add(py, vy)) as i32, r), py)
    } else {
        (r, w.pos.y)
    };
    if nudge_down_applies(r2) {
        let py = wrapping_add(py2, 65536);
        (reprobe_sides(level, inx, spec_ftoi(wrapping_add(py, vy)) as i32, r2), py, vy)
    } else {
        (r2, py2, vy)
    }
}

/// `w` with its vertical position and velocity replaced.
pub open spec fn with_y(w: WormState, py: i32, vy: i32) -> WormState {
    WormState { pos: Vec2 { x: w.pos.x, y: py }, vel: Vec2 { x: w.vel.x, y: vy }, ..w }
}

/// Every reaction is a small non-negative count.
pub open spec fn small_reacts(r: Seq<i32>) -> bool {
    r.len() == 4 && forall|k: int| 0 <= k < 4 ==> 0 <= #[trigger] r[k] <= 32
}

proof fn lemma_pass_small(level: LevelSim, c: PhysicsConsts, inx: i32, iny: i32, r: Seq<i32>, vy: i32, i: int)
    requires
        0 <= i <= 4,
        r.len() == 4,
        forall|k: int| 0 <= k < 4 ==> 0 <= #[trigger] r[k] <= 7 + 5 * i,
    ensures
        small_reacts(reaction_pass(level, c, inx, iny, r, vy, i).0),
    decreases 4 - i,
{
    if i < 4 {
        lemma_probe_hits_bound(level, inx, iny, i, col_count(i));
        let r1 = r.update(i, reaction(level, inx, iny, i) as i32);
        let r2 = edge_adds(level, c, inx, iny, r1);
        assert forall|k: int| 0 <= k < 4 implies 0 <= #[trigger] r2[k] <= 7 + 5 * (i + 1) by {
            assert(0 <= r1[k] <= 7 + 5 * i);
        }
        lemma_pass_small(level, c, inx, iny, r2, float_adjust(c, iny, vy), i + 1);
    }
}

/// The bottom and top edges of the level are solid. Without the float hack, a
/// worm whose next pixel row `ftoi(pos.y + vel.y)` lies in the last five rows
/// (and not also in the first five) gets an UP reaction of at least 10: each
/// of the last two probe steps of the pass adds 5 on top of the probed count,
/// and the nudges re-probe only the side directions. Likewise a worm whose
/// next row lies in the first five rows gets a DOWN reaction of at least 5.
pub proof fn law_level_edges_are_solid(level: LevelSim, w: WormState, c: PhysicsConsts)
    ensures
        ({
            let iny = spec_ftoi(wrapping_add(w.pos.y, w.vel.y));
            let r = reactions_of(level, w, c).0;
            &&& r.len() == 4
            &&& (!c.h_worm_float && iny >= 5 && iny > level.height - 6) ==> r[2] >= 10
            &&& iny < 5 ==> r[0] >= 5
        }),
{
    let inx = spec_ftoi(wrapping_add(w.pos.x, w.vel.x)) as i32;
    let iny = spec_ftoi(wrapping_add(w.pos.y, w.vel.y)) as i32;
    crate::fixed::lemma_ftoi_range(wrapping_add(w.pos.y, w.vel.y));
    let r0 = seq![0i32, 0i32, 0i32, 0i32];
    let vy0 = w.vel.y;
    lemma_pass_small(level, c, inx, iny, r0, vy0, 0);
    // The four probe steps of the pass, one direction each.
    lemma_probe_hits_bound(level, inx, iny, 0, col_count(0));
    lemma_probe_hits_bound(level, inx, iny, 1, col_count(1));
    lemma_probe_hits_bound(level, inx, iny, 2, col_count(2));
    lemma_probe_hits_bound(level, inx, iny, 3, col_count(3));
    let a1 = edge_adds(level, c, inx, iny, r0.update(0, reaction(level, inx, iny, 0) as i32));
    let v1 = float_adjust(c, iny, vy0);
    let a2 = edge_adds(level, c, inx, iny, a1.update(1, reaction(level, inx, iny, 1) as i32));
    let v2 = float_adjust(c, iny, v1);
    let a3 = edge_adds(level, c, inx, iny, a2.update(2, reaction(level, inx, iny, 2) as i32));
    let v3 = float_adjust(c, iny, v2);
    let a4 = edge_adds(level, c, inx, iny, a3.update(3, reaction(level, inx, iny, 3) as i32));
    let v4 = float_adjust(c, iny, v3);
    assert(reaction_pass(level, c, inx, iny, a4, v4, 4) == (a4, v4));
    assert(reaction_pass(level, c, inx, iny, a3, v3, 3) == (a4, v4));
    assert(reaction_pass(level, c, inx, iny, a2, v2, 2) == (a4, v4));
    assert(reaction_pass(level, c, inx, iny, a1, v1, 1) == (a4, v4));
    assert(reaction_pass(level, c, inx, iny, r0, vy0, 0) == (a4, v4));
    assert(0 <= a1[0]);
    assert(a1[0] >= 0 && a2[0] >= a1[0] && a3[0] >= a2[0] && a4[0] >= a3[0]);
    if iny < 5 {
        assert(a1[0] >= 5);
    }
    if !c.h_worm_float && iny >= 5 && iny > level.height - 6 {
        assert(a3[2] >= 5);
        assert(a4[2] >= 10);
    }
    let r = a4;
    let vy = v4;
    let r2 = if nudge_up_applies(r) {
        let py = wrapping_sub(w.pos.y, 65536);
        reprobe_sides(level, inx, spec_ftoi(wrapping_add(py, vy)) as i32, r)
    } else {
        r
    };
    assert(r2[0] == r[0] && r2[2] == r[2] && r2.len() == 4);
}

/// The reaction pass of `worm`: returns its reactions and moves its vertical
/// position and velocity exactly as [`reactions_of`] says; every other field of
/// the worm is unchanged.
pub fn worm_reactions(level: &LevelSim, worm: &mut WormState, c: &PhysicsConsts) -> (r: [i32; 4])
    requires
        level.width >= i32::MIN + 5,
        level.height >= i32::MIN + 6,
    ensures
        r@ == reactions_of(*level, *old(worm), *c).0,
        *final(worm) == with_y(*old(worm), reactions_of(*level, *old(worm), *c).1, reactions_of(*level, *old(worm), *c).2),
{
    let ghost w0 = *worm;
    let mut reacts = [0i32; 4];
    assert(reacts@ =~= seq![0i32, 0i32, 0i32, 0i32]);

    let mut next = worm.pos.add(worm.vel);
    let i_next_x = ftoi(next.x);
    let mut i_next_y = ftoi(next.y);
    let ghost pass = reaction_pass(*level, *c, i_next_x, i_next_y, reacts@, worm.vel.y, 0);
    proof {
        lemma_pass_small(*level, *c, i_next_x, i_next_y, reacts@, worm.vel.y, 0);
    }

    let mut i: usize = 0;
    while i < 4
        invariant
            i <= 4,
            -32768 <= i_next_x <= 32767,
            -32768 <= i_next_y <= 32767,
            reaction_pass(*level, *c, i_next_x, i_next_y, reacts@, worm.vel.y, i as int) == pass,
            forall|k: int| 0 <= k < 4 ==> 0 <= #[trigger] reacts@[k] <= 7 + 5 * i,
            *worm == with_y(w0, w0.pos.y, worm.vel.y),
            level.width >= i32::MIN + 5,
            level.height >= i32::MIN + 6,
        decreases 4 - i,
    {
        let ghost before = reacts@;
        proof {
            lemma_probe_hits_bound(*level, i_next_x, i_next_y, i as int, col_count(i as int));
        }
        calculate_reaction_force(level, i_next_x, i_next_y, i, &mut reacts);
        let ghost r1 = reacts@;

        if i_next_x < 4 {
            reacts[RF_RIGHT] += 5;
        } else if i_next_x > level.width - 5 {
            reacts[RF_LEFT] += 5;
        }

        if i_next_y < 5 {
            reacts[RF_DOWN] += 5;
        } else if c.h_worm_float {
            if i_next_y > c.worm_float_level {
                worm.vel.y = worm.vel.y.wrapping_sub(c.worm_float_power);
            }
        } else if i_next_y > level.height - 6 {
            reacts[RF_UP] += 5;
        }
        assert(reacts@ =~= edge_adds(*level, *c, i_next_x, i_next_y, r1));
        i += 1;
    }
    let ghost r_pass = reacts@;
    let ghost vy = worm.vel.y;
    assert(pass == (r_pass, vy));
    proof {
        lemma_pass_small(*level, *c, i_next_x, i_next_y, seq![0i32, 0i32, 0i32, 0i32], w0.vel.y, 0);
    }

    if reacts[RF_DOWN] < 2 && reacts[RF_UP] > 0 && (reacts[RF_LEFT] > 0 || reacts[RF_RIGHT] > 0) {
        worm.pos.y = worm.pos.y.wrapping_sub(crate::fixed::itof(1));
        next.y = worm.pos.y.wrapping_add(worm.vel.y);
        i_next_y = ftoi(next.y);
        calculate_reaction_force(level, i_next_x, i_next_y, RF_LEFT, &mut reacts);
        calculate_reaction_force(level, i_next_x, i_next_y, RF_RIGHT, &mut reacts);
    }

    if reacts[RF_UP] < 2 && reacts[RF_DOWN] > 0 && (reacts[RF_LEFT] > 0 || reacts[RF_RIGHT] > 0) {
        worm.pos.y = worm.pos.y.wrapping_add(crate::fixed::itof(1));
        next.y = worm.pos.y.wrapping_add(worm.vel.y);
        i_next_y = ftoi(next.y);
        calculate_reaction_force(level, i_next_x, i_next_y, RF_LEFT, &mut reacts);
        calculate_reaction_force(level, i_next_x, i_next_y, RF_RIGHT, &mut reacts);
    }

    reacts
}

// ---------------------------------------------------------------------------
// ProcessPhysics
// ---------------------------------------------------------------------------

/// The bounce-or-stop of one axis: a moving worm meeting a reaction bounces
/// (velocity negated and divided by 3, truncating; health lowered by `damage`
/// under the fall-damage hack) when its speed exceeds `min_bounce`, and stops
/// otherwise. Returns the new velocity and health.
pub open spec fn bounce(v: i32, react: i32, min_bounce: i32, health: i32, fall_damage: bool, damage: i32) -> (i32, i32) {
    if v != 0 && react != 0 {
        if spec_wrapping_abs(v) > min_bounce {
            (spec_wrapping_div(spec_wrapping_neg(v), 3), if fall_damage { wrapping_sub(health, damage) } else { health })
        } else {
            (0, health)
        }
    } else {
        (v, health)
    }
}

/// The reaction index opposing horizontal motion of sign `v` (`v >= 0` reads LEFT).
pub open spec fn h_index(v: i32) -> int {
    if v >= 0 { 1 } else { 3 }
}

/// The reaction index opposing vertical motion of sign `v` (`v >= 0` reads UP).
pub open spec fn v_index(v: i32) -> int {
    if v >= 0 { 2 } else { 0 }
}

/// One physics step of worm `w` under reactions `r`: friction on `vel.x` when
/// grounded (`r[UP] > 0`, `vel.x * mult / div`, wrapping, truncating), the
/// horizontal then vertical bounce-or-stop, gravity when `r[UP] == 0`, and the
/// integration of each axis unless its opposing reaction is 2 or more.
pub open spec fn physics_step(w: WormState, r: Seq<i32>, c: PhysicsConsts) -> WormState {
    let vx0 = if r[2] > 0 {
        spec_wrapping_div(wrapping_mul(w.vel.x, c.worm_fric_mult), c.worm_fric_div)
    } else {
        w.vel.x
    };
    let vy0 = w.vel.y;
    let mbh = if vx0 > 0 { c.min_bounce_right } else { spec_wrapping_neg(c.min_bounce_left) };
    let mbv = if vy0 > 0 { c.min_bounce_down } else { spec_wrapping_neg(c.min_bounce_up) };
    let (vx1, h1) = bounce(vx0, r[h_index(vx0)], mbh, w.health, c.h_fall_damage, c.fall_damage_right);
    let (vy1, h2) = bounce(vy0, r[v_index(vy0)], mbv, h1, c.h_fall_damage, c.fall_damage_down);
    let vy2 = if r[2] == 0 { wrapping_add(vy1, c.worm_gravity) } else { vy1 };
    let px = if r[h_index(vx1)] < 2 { wrapping_add(w.pos.x, vx1) } else { w.pos.x };
    let py = if r[v_index(vy2)] < 2 { wrapping_add(w.pos.y, vy2) } else { w.pos.y };
    WormState { pos: Vec2 { x: px, y: py }, vel: Vec2 { x: vx1, y: vy2 }, health: h2, ..w }
}

/// A worm touching nothing falls freely: with every reaction zero its
/// horizontal velocity is kept, its vertical velocity gains the gravity
/// (wrapping), its health is unchanged, and it moves by its new velocity
/// (wrapping) on both axes.
pub proof fn law_free_fall(w: WormState, r: Seq<i32>, c: PhysicsConsts)
    requires
        r.len() == 4,
        r[0] == 0 && r[1] == 0 && r[2] == 0 && r[3] == 0,
    ensures
        ({
            let n = physics_step(w, r, c);
            let vy = wrapping_add(w.vel.y, c.worm_gravity);
            &&& n.vel.x == w.vel.x
            &&& n.vel.y == vy
            &&& n.pos.x == wrapping_add(w.pos.x, w.vel.x)
            &&& n.pos.y == wrapping_add(w.pos.y, vy)
            &&& n.health == w.health
            &&& (i32::MIN <= w.vel.y + c.worm_gravity <= i32::MAX) ==> n.vel.y == w.vel.y + c.worm_gravity
        }),
{
}

/// A worm meeting a reaction against its motion never keeps moving into it:
/// off the ground (UP reaction zero, so no friction), a worm moving right
/// (left) that meets a LEFT (RIGHT) reaction ends with a horizontal velocity
/// of at most (at least) zero, a third of the reversed speed or a stop. A
/// worm moving down that meets an UP reaction ends with a vertical velocity
/// of at most zero, and one moving up that meets a DOWN reaction while
/// standing on an UP reaction ends with a vertical velocity of at least zero.
pub proof fn law_bounce_opposes_motion(w: WormState, r: Seq<i32>, c: PhysicsConsts)
    requires
        r.len() == 4,
        0 <= r[0] && 0 <= r[1] && 0 <= r[2] && 0 <= r[3],
    ensures
        ({
            let n = physics_step(w, r, c);
            &&& (r[2] == 0 && w.vel.x > 0 && r[1] > 0) ==> n.vel.x <= 0
            &&& (r[2] == 0 && w.vel.x < 0 && w.vel.x != i32::MIN && r[3] > 0) ==> n.vel.x >= 0
            &&& (w.vel.y > 0 && r[2] > 0) ==> n.vel.y <= 0
            &&& (w.vel.y < 0 && w.vel.y != i32::MIN && r[0] > 0 && r[2] > 0) ==> n.vel.y >= 0
        }),
{
    let v = w.vel.x;
    if v > 0 {
        assert(crate::fixed::trunc_div(-v as int, 3) <= 0);
    }
    if v < 0 && v != i32::MIN {
        assert(crate::fixed::trunc_div(-v as int, 3) >= 0);
    }
    let u = w.vel.y;
    if u > 0 {
        assert(crate::fixed::trunc_div(-u as int, 3) <= 0);
    }
    if u < 0 && u != i32::MIN {
        assert(crate::fixed::trunc_div(-u as int, 3) >= 0);
    }
}

fn bounce_axis(v: i32, react: i32, min_bounce: i32, health: i32, fall_damage: bool, damage: i32) -> (r: (i32, i32))
    ensures
        r == bounce(v, react, min_bounce, health, fall_damage, damage),
{
    let abs_v = wrapping_abs_i32(v);
    if v != 0 && react != 0 {
        if abs_v > min_bounce {
            let h = if fall_damage { health.wrapping_sub(damage) } else { health };
            (wrapping_div_i32(wrapping_neg_i32(v), 3), h)
        } else {
            (0, health)
        }
    } else {
        (v, health)
    }
}

/// Applies one physics step to `worm` under the reactions `reacts`.
#[verifier::rlimit(50)]
pub fn worm_process_physics(worm: &mut WormState, reacts: &[i32; 4], c: &PhysicsConsts)
    requires
        reacts[2] > 0 ==> c.worm_fric_div != 0,
    ensures
        *final(worm) == physics_step(*old(worm), reacts@, *c),
{
    let ghost w0 = *worm;
    if reacts[RF_UP] > 0 {
        worm.vel.x = wrapping_div_i32(worm.vel.x.wrapping_mul(c.worm_fric_mult), c.worm_fric_div);
    }
    let ghost vx0 = worm.vel.x;

    let rh = reacts[if worm.vel.x >= 0 { RF_LEFT } else { RF_RIGHT }];
    let rv = reacts[if worm.vel.y >= 0 { RF_UP } else { RF_DOWN }];
    let mbh = if worm.vel.x > 0 { c.min_bounce_right } else { wrapping_neg_i32(c.min_bounce_left) };
    let mbv = if worm.vel.y > 0 { c.min_bounce_down } else { wrapping_neg_i32(c.min_bounce_up) };

    let (vx, h1) = bounce_axis(worm.vel.x, rh, mbh, worm.health, c.h_fall_damage, c.fall_damage_right);
    worm.vel.x = vx;
    worm.health = h1;
    let (vy, h2) = bounce_axis(worm.vel.y, rv, mbv, worm.health, c.h_fall_damage, c.fall_damage_down);
    worm.vel.y = vy;
    worm.health = h2;
    assert(*worm == WormState { vel: Vec2 { x: vx, y: vy }, health: h2, ..w0 });

    if reacts[RF_UP] == 0 {
        worm.vel.y = worm.vel.y.wrapping_add(c.worm_gravity);
    }

    if reacts[if worm.vel.x >= 0 { RF_LEFT } else { RF_RIGHT }] < 2 {
        worm.pos.x = worm.pos.x.wrapping_add(worm.vel.x);
    }
    if reacts[if worm.vel.y >= 0 { RF_UP } else { RF_DOWN }] < 2 {
        worm.pos.y = worm.pos.y.wrapping_add(worm.vel.y);
    }
}

} // verus!
