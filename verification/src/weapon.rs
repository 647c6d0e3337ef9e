//! Weapon projectiles: firing and the per-tick flight.
//!
//! Firing draws, in order: the shell roll below `leave_shells` (iff it is
//! positive); then for each projectile the x and y spread below
//! `2 * distribution` (iff it is non-zero), its frame or colour draw (the
//! frame below `num_frames + 1`, or below 2 without frames, for a looping
//! normal shot; the colour offset below 2 when `start_frame < 0`), and its
//! fuse reduction below `time_to_explo_v` (iff non-zero). The draws are handed
//! in; one the weapon does not call for is ignored.

use vstd::prelude::*;
use crate::fixed::{ftoi, itof, lemma_ftoi_range, scaled_add, spec_ftoi, vec_add, Vec2};
use crate::blit::{crater_ok, cratered, draw_dirt_effect, SpriteSet, Texture};
use crate::draws::{lemma_tape_bound_below, tape_bound, DrawTape, Draws};
use crate::object_types::{NObjectType, SObjectType, Weapon};
use crate::sobject::{blast, blast_ok, lemma_blast_ok_frame, new_sobject, nobjects_typed, sobject_create, velocities_only, wobjects_typed};
use crate::pool::{all_live, is_lowest_free, lemma_live_count_bound, lemma_spawn_is_spawned, reuse_slot, spawned, Pool};
use crate::state::{has_flag, LevelSim, NObject, SObject, WObject, WormState, WormWeapon, MAT_DIRT_ROCK, NUM_WEAPONS};
use vstd::wrapping::i32_specs::{wrapping_add, wrapping_sub};

verus! {

/// Normal shot.
pub const ST_NORMAL: i32 = 0;
/// Directional-sprite shot.
pub const ST_TYPE1: i32 = 1;
/// Steerable shot.
pub const ST_STEERABLE: i32 = 2;
/// Angle-framed shot.
pub const ST_TYPE2: i32 = 3;

/// The draws of one projectile.
#[derive(Clone, Copy, PartialEq, Eq, Debug, Default)]
pub struct ShotDraws {
    pub spread_x: u32,
    pub spread_y: u32,
    /// The frame draw of a looping normal shot, or the colour offset below 2.
    pub frame: u32,
    pub time: u32,
}

/// The frame of a new projectile fired along `angle`.
pub open spec fn shot_frame(w: Weapon, angle: i32, d: ShotDraws) -> int {
    if w.start_frame >= 0 {
        if w.shot_type == ST_NORMAL {
            if w.loop_anim { d.frame as int } else { 0 }
        } else if w.shot_type == ST_TYPE1 {
            let a = if angle > 64 { angle - 1 } else { angle as int };
            let f = (a - 12) / 8;
            if f < 0 { 0 } else if f > 12 { 12 } else { f }
        } else if w.shot_type == ST_TYPE2 || w.shot_type == ST_STEERABLE {
            angle as int
        } else {
            0
        }
    } else {
        w.color_bullets - d.frame as i32
    }
}

/// The projectile weapon `w` fires along `angle`: launched at `speed`
/// hundredths of the unit direction plus `vel`, with the spread
/// `draw - distribution` on each component, its frame ([`shot_frame`]) and
/// its fuse.
pub open spec fn new_wobject(w: Weapon, angle: i32, vel: Vec2, speed: i32, pos: Vec2, owner_idx: i32, cossin: Seq<Vec2>, d: ShotDraws) -> WObject {
    let v = scaled_add(cossin[angle as int], speed, 100, vel);
    let v2 = if w.distribution != 0 {
        Vec2 {
            x: wrapping_add(v.x, wrapping_sub(d.spread_x as i32, w.distribution)),
            y: wrapping_add(v.y, wrapping_sub(d.spread_y as i32, w.distribution)),
        }
    } else {
        v
    };
    WObject {
        pos,
        vel: v2,
        cur_frame: shot_frame(w, angle, d) as i32,
        time_left: if w.time_to_explo_v != 0 { (w.time_to_explo - d.time as i32) as i32 } else { w.time_to_explo },
        ty: Some(w.id),
        owner_idx,
    }
}

/// The draws fit the `i32` arithmetic of a shot.
pub open spec fn shot_fits(w: Weapon, d: ShotDraws) -> bool {
    &&& w.start_frame < 0 ==> d.frame <= i32::MAX && i32::MIN <= w.color_bullets - d.frame <= i32::MAX
    &&& w.start_frame >= 0 && w.shot_type == ST_NORMAL && w.loop_anim ==> d.frame <= i32::MAX
    &&& w.time_to_explo_v != 0 ==> i32::MIN <= w.time_to_explo - d.time as i32 <= i32::MAX
}

/// Fires one projectile of `weapon` along `angle` ([`new_wobject`]) into the
/// lowest free slot; returns the slot, or `None` when the pool is full.
pub fn weapon_fire(
    weapon: &Weapon,
    angle: i32,
    vel: Vec2,
    speed: i32,
    pos: Vec2,
    owner_idx: i32,
    cossin: &[Vec2; 128],
    d: &ShotDraws,
    wobjects: &mut Pool<WObject>,
) -> (r: Option<usize>)
    requires
        old(wobjects).wf(),
        0 <= angle < 128,
        shot_fits(*weapon, *d),
    ensures
        final(wobjects).wf(),
        final(wobjects)@ == spawned(old(wobjects)@, new_wobject(*weapon, angle, vel, speed, pos, owner_idx, cossin@, *d)),
        match r {
            Some(i) => is_lowest_free(old(wobjects)@, i as int),
            None => all_live(old(wobjects)@),
        },
{
    let mut v = cossin[angle as usize].mul(speed).div(100).add(vel);
    if weapon.distribution != 0 {
        let dist = weapon.distribution;
        v.x = v.x.wrapping_add((d.spread_x as i32).wrapping_sub(dist));
        v.y = v.y.wrapping_add((d.spread_y as i32).wrapping_sub(dist));
    }
    let cur_frame = if weapon.start_frame >= 0 {
        if weapon.shot_type == ST_NORMAL {
            if weapon.loop_anim { d.frame as i32 } else { 0 }
        } else if weapon.shot_type == ST_TYPE1 {
            let mut a = angle;
            if a > 64 {
                a -= 1;
            }
            let b = a - 12;
            let f = b >> 3u32;
            assert(f == b / 8) by (bit_vector)
                requires f == b >> 3u32, -20 <= b <= 200;
            if f < 0 { 0 } else if f > 12 { 12 } else { f }
        } else if weapon.shot_type == ST_TYPE2 || weapon.shot_type == ST_STEERABLE {
            angle
        } else {
            0
        }
    } else {
        weapon.color_bullets - d.frame as i32
    };
    let mut time_left = weapon.time_to_explo;
    if weapon.time_to_explo_v != 0 {
        time_left = time_left - d.time as i32;
    }
    let obj = WObject { pos, vel: v, cur_frame, time_left, ty: Some(weapon.id), owner_idx };
    let ghost s0 = wobjects@;
    let r = wobjects.spawn(obj);
    proof {
        lemma_spawn_is_spawned(s0, wobjects@, obj, r);
    }
    r
}

/// The pool after firing one projectile per draw, in order.
pub open spec fn fired(
    s: Seq<Option<WObject>>,
    w: Weapon,
    angle: i32,
    vel: Vec2,
    speed: i32,
    pos: Vec2,
    owner_idx: i32,
    cossin: Seq<Vec2>,
    shots: Seq<ShotDraws>,
) -> Seq<Option<WObject>>
    decreases shots.len(),
{
    if shots.len() == 0 {
        s
    } else {
        spawned(fired(s, w, angle, vel, speed, pos, owner_idx, cossin, shots.drop_last()),
            new_wobject(w, angle, vel, speed, pos, owner_idx, cossin, shots.last()))
    }
}

/// The weapon in the worm's current slot.
pub open spec fn current_weapon_def(worm: WormState, weapons: Seq<Weapon>) -> Weapon {
    weapons[worm.weapons[worm.current_weapon as int].ty->0 as int]
}

/// The muzzle: `detect_distance + 5` along the aim from the worm, one pixel up.
pub open spec fn muzzle(worm: WormState, w: Weapon, cossin: Seq<Vec2>) -> Vec2 {
    let a = spec_ftoi(worm.aiming_angle);
    let c = cossin[a];
    let m = Vec2 {
        x: vstd::wrapping::i32_specs::wrapping_mul(c.x, (w.detect_distance + 5) as i32),
        y: vstd::wrapping::i32_specs::wrapping_mul(c.y, (w.detect_distance + 5) as i32),
    };
    let p = vec_add(m, worm.pos);
    Vec2 { x: wrapping_sub(p.x, 0), y: wrapping_sub(p.y, 65536) }
}

/// The launch speed: the weapon's, raised to at least 100 when the worm's
/// own velocity carries into the shot.
pub open spec fn launch_speed(w: Weapon) -> i32 {
    if w.affect_by_worm && w.speed < 100 { 100 } else { w.speed }
}

/// The velocity the worm lends each shot: `vel * 100 / speed` when the weapon
/// carries it, else zero.
pub open spec fn lent_vel(worm: WormState, w: Weapon) -> Vec2 {
    if w.affect_by_worm {
        crate::fixed::vec_div(Vec2 {
            x: vstd::wrapping::i32_specs::wrapping_mul(worm.vel.x, 100),
            y: vstd::wrapping::i32_specs::wrapping_mul(worm.vel.y, 100),
        }, launch_speed(w))
    } else {
        Vec2 { x: 0, y: 0 }
    }
}

/// The recoil factor: the weapon's, read as signed (less 256 from 128 up)
/// under the signed-recoil hack.
pub open spec fn recoil_of(w: Weapon, signed: bool) -> int {
    if signed && w.recoil >= 128 { w.recoil - 256 } else { w.recoil as int }
}

/// The slot a plain spawn into a pool with a free slot takes lies in the pool.
proof fn lemma_reuse_slot_in_range<T>(s: Seq<Option<T>>)
    requires
        !all_live(s),
    ensures
        0 <= reuse_slot(s) < s.len(),
{
    let j = choose|j: int| 0 <= j < s.len() && !(#[trigger] s[j] is Some);
    assert(s[j] is None);
    if exists|i: int| is_lowest_free(s, i) {
        let i = choose|i: int| is_lowest_free(s, i);
        assert(is_lowest_free(s, i));
    }
}

/// Firing only fills slots, each with a projectile at `pos`; the pool keeps
/// its size.
proof fn lemma_fired_slots_at(
    s: Seq<Option<WObject>>, w: Weapon, angle: i32, vel: Vec2, speed: i32, pos: Vec2, owner_idx: i32,
    cossin: Seq<Vec2>, shots: Seq<ShotDraws>,
)
    ensures
        fired(s, w, angle, vel, speed, pos, owner_idx, cossin, shots).len() == s.len(),
        forall|k: int| 0 <= k < s.len() && #[trigger] fired(s, w, angle, vel, speed, pos, owner_idx, cossin, shots)[k] != s[k]
            ==> fired(s, w, angle, vel, speed, pos, owner_idx, cossin, shots)[k] is Some
                && fired(s, w, angle, vel, speed, pos, owner_idx, cossin, shots)[k]->0.pos == pos,
    decreases shots.len(),
{
    if shots.len() > 0 {
        let t = fired(s, w, angle, vel, speed, pos, owner_idx, cossin, shots.drop_last());
        lemma_fired_slots_at(s, w, angle, vel, speed, pos, owner_idx, cossin, shots.drop_last());
        let v = new_wobject(w, angle, vel, speed, pos, owner_idx, cossin, shots.last());
        let u = fired(s, w, angle, vel, speed, pos, owner_idx, cossin, shots);
        assert(u == spawned(t, v));
        if !all_live(t) {
            lemma_reuse_slot_in_range(t);
        }
        assert forall|k: int| 0 <= k < s.len() && #[trigger] u[k] != s[k] implies u[k] is Some && u[k]->0.pos == pos by {
            if u[k] != t[k] {
                assert(u[k] == Some(v));
            } else {
                assert(t[k] != s[k]);
            }
        }
    }
}

/// Every projectile that firing puts into the pool starts at the muzzle of
/// the worm: `detect_distance + 5` times the aim direction `cossin[a]` (for
/// the aim angle's integer part `a`) from the worm's position, then one pixel
/// (65536) up. The coordinates are the 32-bit wrapping results, and when the
/// arithmetic fits `i32` they are exactly `c.x * (d + 5) + pos.x` and
/// `c.y * (d + 5) + pos.y - 65536`.
pub proof fn law_shots_start_at_muzzle(
    s: Seq<Option<WObject>>, worm: WormState, w: Weapon, cossin: Seq<Vec2>, vel: Vec2, speed: i32, shots: Seq<ShotDraws>,
    k: int,
)
    requires
        0 <= k < s.len(),
        fired(s, w, spec_ftoi(worm.aiming_angle) as i32, vel, speed, muzzle(worm, w, cossin), worm.index, cossin, shots)[k]
            != s[k],
    ensures
        ({
            let o = fired(s, w, spec_ftoi(worm.aiming_angle) as i32, vel, speed, muzzle(worm, w, cossin), worm.index,
                cossin, shots)[k];
            let c = cossin[spec_ftoi(worm.aiming_angle)];
            let d = w.detect_distance + 5;
            &&& o is Some
            &&& o->0.pos.x == wrapping_add(vstd::wrapping::i32_specs::wrapping_mul(c.x, d as i32), worm.pos.x)
            &&& o->0.pos.y == wrapping_sub(wrapping_add(vstd::wrapping::i32_specs::wrapping_mul(c.y, d as i32), worm.pos.y), 65536)
            &&& (d <= i32::MAX && i32::MIN <= c.x * d <= i32::MAX && i32::MIN <= c.x * d + worm.pos.x <= i32::MAX)
                ==> o->0.pos.x == c.x * d + worm.pos.x
            &&& (d <= i32::MAX && i32::MIN <= c.y * d <= i32::MAX && i32::MIN <= c.y * d + worm.pos.y <= i32::MAX
                && i32::MIN <= c.y * d + worm.pos.y - 65536) ==> o->0.pos.y == c.y * d + worm.pos.y - 65536
        }),
{
    let a = spec_ftoi(worm.aiming_angle) as i32;
    let m = muzzle(worm, w, cossin);
    lemma_fired_slots_at(s, w, a, vel, speed, m, worm.index, cossin, shots);
    let c = cossin[spec_ftoi(worm.aiming_angle)];
    let d = w.detect_distance + 5;
    if d <= i32::MAX && i32::MIN <= c.x * d <= i32::MAX {
        crate::fixed::lemma_wrapping_mul_exact(c.x, d as i32);
    }
    if d <= i32::MAX && i32::MIN <= c.y * d <= i32::MAX {
        crate::fixed::lemma_wrapping_mul_exact(c.y, d as i32);
    }
}

/// The worm's velocity after the recoil of firing `w`: less `recoil`
/// hundredths (truncating) of the aim direction `cossin[a]`, wrapping.
pub open spec fn recoiled_vel(worm: WormState, w: Weapon, cossin: Seq<Vec2>, signed: bool) -> Vec2 {
    let a = spec_ftoi(worm.aiming_angle);
    let rc = recoil_of(w, signed);
    let push = crate::fixed::vec_div(Vec2 {
        x: vstd::wrapping::i32_specs::wrapping_mul(cossin[a].x, rc as i32),
        y: vstd::wrapping::i32_specs::wrapping_mul(cossin[a].y, rc as i32),
    }, 100);
    Vec2 { x: wrapping_sub(worm.vel.x, push.x), y: wrapping_sub(worm.vel.y, push.y) }
}

/// A hundredth, truncating toward zero, of an `i32` value keeps its sign and
/// fits `i32`.
proof fn lemma_trunc_div_100_fits(x: int)
    requires
        i32::MIN <= x <= i32::MAX,
    ensures
        i32::MIN <= crate::fixed::trunc_div(x, 100) <= i32::MAX,
        x >= 0 ==> 0 <= crate::fixed::trunc_div(x, 100) <= x,
        x < 0 ==> x <= crate::fixed::trunc_div(x, 100) <= 0,
{
    if x > 0 {
        assert(0 <= x / 100 <= x) by (nonlinear_arith) requires x > 0;
    } else if x < 0 {
        assert(0 <= (-x) / 100 <= -x) by (nonlinear_arith) requires x < 0;
    }
}

/// The recoil pushes the worm against its aim: with a non-negative recoil
/// factor `rc` and arithmetic that fits `i32`, each velocity component loses
/// `c * rc / 100` (truncating toward zero) of the aim direction's component
/// `c`, so a worm aiming right (down) is slowed in `x` (`y`), never sped up.
pub proof fn law_recoil_against_aim(worm: WormState, w: Weapon, cossin: Seq<Vec2>, signed: bool)
    requires
        0 <= recoil_of(w, signed) <= i32::MAX,
    ensures
        ({
            let c = cossin[spec_ftoi(worm.aiming_angle)];
            let rc = recoil_of(w, signed);
            let n = recoiled_vel(worm, w, cossin, signed);
            &&& (i32::MIN <= c.x * rc <= i32::MAX && i32::MIN <= worm.vel.x - crate::fixed::trunc_div(c.x * rc, 100) <= i32::MAX)
                ==> n.x == worm.vel.x - crate::fixed::trunc_div(c.x * rc, 100)
            &&& (i32::MIN <= c.y * rc <= i32::MAX && i32::MIN <= worm.vel.y - crate::fixed::trunc_div(c.y * rc, 100) <= i32::MAX)
                ==> n.y == worm.vel.y - crate::fixed::trunc_div(c.y * rc, 100)
            &&& (c.x >= 0 && i32::MIN <= c.x * rc <= i32::MAX && i32::MIN <= worm.vel.x - crate::fixed::trunc_div(c.x * rc, 100))
                ==> n.x <= worm.vel.x
            &&& (c.y >= 0 && i32::MIN <= c.y * rc <= i32::MAX && i32::MIN <= worm.vel.y - crate::fixed::trunc_div(c.y * rc, 100))
                ==> n.y <= worm.vel.y
        }),
{
    let c = cossin[spec_ftoi(worm.aiming_angle)];
    let rc = recoil_of(w, signed);
    if i32::MIN <= c.x * rc <= i32::MAX {
        crate::fixed::lemma_wrapping_mul_exact(c.x, rc as i32);
        lemma_trunc_div_100_fits(c.x * rc);
        if c.x >= 0 {
            assert(0 <= c.x * rc) by (nonlinear_arith) requires 0 <= c.x, 0 <= rc;
        }
    }
    if i32::MIN <= c.y * rc <= i32::MAX {
        crate::fixed::lemma_wrapping_mul_exact(c.y, rc as i32);
        lemma_trunc_div_100_fits(c.y * rc);
        if c.y >= 0 {
            assert(0 <= c.y * rc) by (nonlinear_arith) requires 0 <= c.y, 0 <= rc;
        }
    }
}

/// The worm fires its current weapon.
///
/// The slot loses one ammo and restarts its fire delay; the worm's fire cone
/// opens; a shell roll of 0 (`leave_shell_draw`, made only when the weapon
/// leaves shells) arms the shell timer. Then `parts` projectiles (one per
/// entry of `shots`) fire from the [`muzzle`] along the aim at the
/// [`launch_speed`] with the [`lent_vel`], and finally the recoil pushes the
/// worm back by `recoil` hundredths of the aim direction.
pub fn worm_fire(
    worm: &mut WormState,
    weapons: &[Weapon],
    cossin: &[Vec2; 128],
    h_signed_recoil: bool,
    leave_shell_draw: u32,
    shots: &Vec<ShotDraws>,
    wobjects: &mut Pool<WObject>,
)
    requires
        old(wobjects).wf(),
        0 <= old(worm).current_weapon < NUM_WEAPONS,
        old(worm).weapons[old(worm).current_weapon as int].ty is Some,
        0 <= old(worm).weapons[old(worm).current_weapon as int].ty->0 < weapons@.len(),
        old(worm).weapons[old(worm).current_weapon as int].ammo > i32::MIN,
        0 <= spec_ftoi(old(worm).aiming_angle) < 128,
        current_weapon_def(*old(worm), weapons@).detect_distance + 5 <= i32::MAX,
        shots@.len() == if current_weapon_def(*old(worm), weapons@).parts > 0 { current_weapon_def(*old(worm), weapons@).parts as int } else { 0 },
        forall|k: int| 0 <= k < shots@.len() ==> shot_fits(current_weapon_def(*old(worm), weapons@), #[trigger] shots@[k]),
    ensures
        final(wobjects).wf(),
        ({
            let w = current_weapon_def(*old(worm), weapons@);
            let cw = old(worm).current_weapon as int;
            let slot = old(worm).weapons[cw];
            let a = spec_ftoi(old(worm).aiming_angle);
            &&& final(wobjects)@ == fired(old(wobjects)@, w, a as i32, lent_vel(*old(worm), w), launch_speed(w),
                muzzle(*old(worm), w, cossin@), old(worm).index, cossin@, shots@)
            &&& final(worm).weapons@ == old(worm).weapons@.update(cw, WormWeapon { ammo: (slot.ammo - 1) as i32, delay_left: w.delay, ..slot })
            &&& *final(worm) == (WormState {
                weapons: final(worm).weapons,
                fire_cone: w.fire_cone,
                leave_shell_timer: if w.leave_shells > 0 && leave_shell_draw == 0 { w.leave_shell_delay } else { old(worm).leave_shell_timer },
                vel: recoiled_vel(*old(worm), w, cossin@, h_signed_recoil),
                ..*old(worm)
            })
        }),
{
    let ghost w0 = *worm;
    let cw = worm.current_weapon as usize;
    let weapon_id = match worm.weapons[cw].ty {
        Some(t) => t,
        None => 0,
    };
    let w = weapons[weapon_id as usize];
    worm.weapons[cw].ammo = worm.weapons[cw].ammo - 1;
    worm.weapons[cw].delay_left = w.delay;
    worm.fire_cone = w.fire_cone;
    let angle = ftoi(worm.aiming_angle);
    let firing_pos = cossin[angle as usize].mul(w.detect_distance + 5).add(worm.pos).sub(Vec2::new(0, itof(1)));
    if w.leave_shells > 0 && leave_shell_draw == 0 {
        worm.leave_shell_timer = w.leave_shell_delay;
    }
    let mut speed = w.speed;
    let mut firing_vel = Vec2::zero();
    if w.affect_by_worm {
        if speed < 100 {
            speed = 100;
        }
        firing_vel = worm.vel.mul(100).div(speed);
    }
    assert(speed == launch_speed(w));
    assert(firing_vel == lent_vel(w0, w));
    let ghost s0 = wobjects@;
    let owner = worm.index;
    let mut k: usize = 0;
    while k < shots.len()
        invariant
            wobjects.wf(),
            0 <= angle < 128,
            k <= shots@.len(),
            forall|j: int| 0 <= j < shots@.len() ==> shot_fits(w, #[trigger] shots@[j]),
            owner == w0.index,
            wobjects@ == fired(s0, w, angle, firing_vel, speed, firing_pos, owner, cossin@, shots@.take(k as int)),
        decreases shots.len() - k,
    {
        weapon_fire(&w, angle, firing_vel, speed, firing_pos, owner, cossin, &shots[k], wobjects);
        assert(shots@.take(k + 1).drop_last() =~= shots@.take(k as int));
        k += 1;
    }
    assert(shots@.take(k as int) =~= shots@);
    let mut recoil = w.recoil;
    if h_signed_recoil && recoil >= 128 {
        recoil = recoil - 256;
    }
    worm.vel = worm.vel.sub(cossin[angle as usize].mul(recoil).div(100));
    assert(worm.weapons@ =~= w0.weapons@.update(cw as int, worm.weapons@[cw as int]));
}

// ---------------------------------------------------------------------------
// Firing from the draw tape
// ---------------------------------------------------------------------------

/// The draws of one projectile of `w` read from `t`, in order: the x and y
/// spread below `2 * distribution` (iff it is non-zero); the frame of a
/// looping normal shot below `num_frames + 1` (below 2 without frames), or the
/// colour offset below 2 when `start_frame < 0`; the fuse reduction below
/// `time_to_explo_v` (iff it is non-zero). A draw the weapon does not call for
/// is 0 and reads nothing.
pub open spec fn read_shot(w: Weapon, t: DrawTape) -> (ShotDraws, DrawTape) {
    let max = (w.distribution * 2) as u32;
    let (sx, t1) = if w.distribution != 0 { tape_bound(t, max) } else { (0u32, t) };
    let (sy, t2) = if w.distribution != 0 { tape_bound(t1, max) } else { (0u32, t1) };
    let (fr, t3) = if w.start_frame >= 0 {
        if w.shot_type == ST_NORMAL && w.loop_anim {
            if w.num_frames != 0 { tape_bound(t2, (w.num_frames + 1) as u32) } else { tape_bound(t2, 2) }
        } else {
            (0u32, t2)
        }
    } else {
        tape_bound(t2, 2)
    };
    let (tm, t4) = if w.time_to_explo_v != 0 { tape_bound(t3, w.time_to_explo_v as u32) } else { (0u32, t3) };
    (ShotDraws { spread_x: sx, spread_y: sy, frame: fr, time: tm }, t4)
}

/// `n` projectiles' draws read in order ([`read_shot`]).
pub open spec fn read_shots(w: Weapon, t: DrawTape, n: nat) -> (Seq<ShotDraws>, DrawTape)
    decreases n,
{
    if n == 0 {
        (Seq::empty(), t)
    } else {
        let (s, t1) = read_shots(w, t, (n - 1) as nat);
        let (d, t2) = read_shot(w, t1);
        (s.push(d), t2)
    }
}

/// The draws of a worm firing `w`, read from `t`: the shell roll below
/// `leave_shells` (iff it is positive; 0 otherwise), then one projectile's
/// draws per part ([`read_shots`]).
pub open spec fn read_fire(w: Weapon, t: DrawTape) -> (u32, Seq<ShotDraws>, DrawTape) {
    let (shell, t1) = if w.leave_shells > 0 { tape_bound(t, w.leave_shells as u32) } else { (0u32, t) };
    let (shots, t2) = read_shots(w, t1, if w.parts > 0 { w.parts as nat } else { 0 });
    (shell, shots, t2)
}

/// What the shot draws of `w` need to fit `i32`: twice the spread, the frame
/// count of a looping normal shot, the colour offset and the fuse reduction.
pub open spec fn shot_draws_ok(w: Weapon) -> bool {
    &&& i32::MIN <= w.distribution * 2 <= i32::MAX
    &&& w.start_frame >= 0 && w.shot_type == ST_NORMAL && w.loop_anim && w.num_frames != 0 ==>
        -1 <= w.num_frames < i32::MAX
    &&& w.start_frame < 0 ==> w.color_bullets > i32::MIN
    &&& w.time_to_explo_v != 0 ==> 0 < w.time_to_explo_v && w.time_to_explo - w.time_to_explo_v >= i32::MIN - 1
}

/// Reads one projectile's draws ([`read_shot`]).
pub fn draw_shot(w: &Weapon, draws: &mut Draws) -> (r: ShotDraws)
    requires
        old(draws).wf(),
        shot_draws_ok(*w),
    ensures
        final(draws).wf(),
        (r, final(draws)@) == read_shot(*w, old(draws)@),
        shot_fits(*w, r),
{
    let ghost t0 = draws@;
    let mut sx: u32 = 0;
    let mut sy: u32 = 0;
    if w.distribution != 0 {
        let max = (w.distribution * 2) as u32;
        sx = draws.bound(max);
        sy = draws.bound(max);
    }
    let ghost t2 = draws@;
    let fr: u32 = if w.start_frame >= 0 {
        if w.shot_type == ST_NORMAL && w.loop_anim {
            if w.num_frames != 0 {
                draws.bound((w.num_frames + 1) as u32)
            } else {
                draws.bound(2)
            }
        } else {
            0
        }
    } else {
        draws.bound(2)
    };
    proof {
        if w.start_frame >= 0 && w.shot_type == ST_NORMAL && w.loop_anim && w.num_frames != 0 {
            lemma_tape_bound_below(t2, (w.num_frames + 1) as u32);
        }
    }
    let ghost t3 = draws@;
    let mut tm: u32 = 0;
    if w.time_to_explo_v != 0 {
        tm = draws.bound(w.time_to_explo_v as u32);
    }
    ShotDraws { spread_x: sx, spread_y: sy, frame: fr, time: tm }
}

/// Reads the draws of a worm firing `w` ([`read_fire`]): the shell roll and
/// one projectile's draws per part.
pub fn draw_fire(w: &Weapon, draws: &mut Draws) -> (r: (u32, Vec<ShotDraws>))
    requires
        old(draws).wf(),
        shot_draws_ok(*w),
    ensures
        final(draws).wf(),
        (r.0, r.1@, final(draws)@) == read_fire(*w, old(draws)@),
        forall|k: int| 0 <= k < r.1@.len() ==> shot_fits(*w, #[trigger] r.1@[k]),
{
    let shell = if w.leave_shells > 0 {
        draws.bound(w.leave_shells as u32)
    } else {
        0
    };
    let ghost t1 = draws@;
    let n: i32 = if w.parts > 0 { w.parts } else { 0 };
    let mut shots: Vec<ShotDraws> = Vec::new();
    let mut k: i32 = 0;
    while k < n
        invariant
            0 <= k <= n,
            draws.wf(),
            shot_draws_ok(*w),
            (shots@, draws@) == read_shots(*w, t1, k as nat),
            forall|j: int| 0 <= j < shots@.len() ==> shot_fits(*w, #[trigger] shots@[j]),
        decreases n - k,
    {
        let d = draw_shot(w, draws);
        shots.push(d);
        k += 1;
    }
    (shell, shots)
}

// ---------------------------------------------------------------------------
// Flight
// ---------------------------------------------------------------------------

/// The driver's verdict for a processed projectile.
#[derive(Clone, Copy, PartialEq, Eq, Debug)]
pub enum WObjectOutcome {
    /// Keep the projectile in its slot.
    Keep,
    /// Blow the projectile up and free the slot.
    Explode,
    /// Free the slot without an explosion.
    Remove,
}

/// `(x, y)` is outside the level or solid.
pub open spec fn wblocked(level: LevelSim, x: int, y: int) -> bool {
    !level.in_bounds(x, y) || has_flag(level.flags_xy(x, y), MAT_DIRT_ROCK)
}

/// One tick of a projectile of weapon `w`: the projectile and the verdict.
///
/// It moves by its velocity. A next step leaving the level clamps its
/// position to the crossed edge (0, or the last column or row in fixed
/// point). A solid or outside next cell explodes an explode-on-ground
/// non-bouncing projectile and stops any other non-bouncing one; free air
/// applies gravity. A fused projectile counts down and explodes below zero.
pub open spec fn processed_wobject(obj: WObject, level: LevelSim, w: Weapon) -> (WObject, WObjectOutcome) {
    let p = vec_add(obj.pos, obj.vel);
    let inew_x = spec_ftoi(wrapping_add(p.x, obj.vel.x));
    let inew_y = spec_ftoi(wrapping_add(p.y, obj.vel.y));
    let p2 = Vec2 {
        x: if inew_x >= level.width { ((level.width - 1) * 65536) as i32 } else if inew_x < 0 { 0 } else { p.x },
        y: if inew_y >= level.height { ((level.height - 1) * 65536) as i32 } else if inew_y < 0 { 0 } else { p.y },
    };
    let hit = wblocked(level, inew_x, inew_y);
    let ground_explode = hit && w.bounce == 0 && w.expl_ground;
    let v = if hit {
        if w.bounce == 0 && !w.expl_ground { Vec2 { x: 0, y: 0 } } else { obj.vel }
    } else {
        Vec2 { y: wrapping_add(obj.vel.y, w.gravity), ..obj.vel }
    };
    let fused = w.time_to_explo > 0;
    let time_left = if fused { (obj.time_left - 1) as i32 } else { obj.time_left };
    let explode = ground_explode || (fused && time_left < 0);
    (
        WObject { pos: p2, vel: v, time_left, ..obj },
        if explode { WObjectOutcome::Explode } else { WObjectOutcome::Keep },
    )
}

/// Advances a projectile of weapon `weapon` by one tick; see
/// [`processed_wobject`]. On `Explode` the caller blows it up and frees it.
pub fn wobject_process(obj: &mut WObject, level: &LevelSim, weapon: &Weapon) -> (r: WObjectOutcome)
    requires
        level.wf(),
        weapon.time_to_explo > 0 ==> old(obj).time_left > i32::MIN,
    ensures
        (*final(obj), r) == processed_wobject(*old(obj), *level, *weapon),
{
    let mut do_explode = false;
    obj.pos = obj.pos.add(obj.vel);
    let inew_x = ftoi(obj.pos.x.wrapping_add(obj.vel.x));
    let inew_y = ftoi(obj.pos.y.wrapping_add(obj.vel.y));
    if inew_x < 0 {
        obj.pos.x = 0;
    }
    if inew_y < 0 {
        obj.pos.y = 0;
    }
    if inew_x >= level.width {
        obj.pos.x = itof(level.width - 1);
    }
    if inew_y >= level.height {
        obj.pos.y = itof(level.height - 1);
    }
    if !level.inside(inew_x, inew_y) || level.dirt_rock(inew_x, inew_y) {
        if weapon.bounce == 0 {
            if weapon.expl_ground {
                do_explode = true;
            } else {
                obj.vel = Vec2::zero();
            }
        }
    } else {
        obj.vel.y = obj.vel.y.wrapping_add(weapon.gravity);
    }
    if weapon.time_to_explo > 0 {
        obj.time_left -= 1;
        if obj.time_left < 0 {
            do_explode = true;
        }
    }
    if do_explode {
        WObjectOutcome::Explode
    } else {
        WObjectOutcome::Keep
    }
}

/// The state a projectile explosion leaves, given the level `mid` between
/// its two stages: see [`blow_up`].
pub open spec fn blown_up(
    weapon: Weapon,
    pos: Vec2,
    owner_idx: i32,
    sobject_types: Seq<SObjectType>,
    nobject_types: Seq<NObjectType>,
    cossin: Seq<Vec2>,
    large_sprites: SpriteSet,
    textures: Seq<Texture>,
    weapons: Seq<Weapon>,
    blood: i32,
    level0: LevelSim,
    worms0: Seq<WormState>,
    wobjects0: Seq<Option<WObject>>,
    nobjects0: Seq<Option<NObject>>,
    sobjects0: Seq<Option<SObject>>,
    tape0: DrawTape,
    mid: LevelSim,
    level1: LevelSim,
    worms1: Seq<WormState>,
    wobjects1: Seq<Option<WObject>>,
    nobjects1: Seq<Option<NObject>>,
    sobjects1: Seq<Option<SObject>>,
    tape1: DrawTape,
) -> bool {
    let px = spec_ftoi(pos.x) as i32;
    let py = spec_ftoi(pos.y) as i32;
    let st = sobject_types[weapon.create_on_exp as int];
    let b = blast(st, px, py, owner_idx, worms0, wobjects0, weapons, nobjects0, nobject_types, level0,
        cossin, textures, blood, tape0);
    let tm = if weapon.create_on_exp >= 0 { b.tape } else { tape0 };
    let tex = textures[weapon.dirt_effect as int];
    let (fill, t2) = if weapon.dirt_effect >= 0 { tape_bound(tm, tex.rframe as u32) } else { (0u32, tm) };
    &&& weapon.create_on_exp >= 0 ==> {
        &&& worms1 == b.worms
        &&& wobjects1 == b.wobjects
        &&& nobjects1 == b.nobjects
        &&& exists|i: int| is_lowest_free(sobjects0, i)
            && sobjects1 == sobjects0.update(i, Some(new_sobject(st, px, py)))
        &&& cratered(level0, mid, large_sprites, textures[st.dirt_effect as int],
            textures[st.dirt_effect as int].sframe + b.fill, px - 7, py - 7, st.dirt_effect >= 0)
    }
    &&& weapon.create_on_exp < 0 ==> {
        &&& worms1 == worms0
        &&& wobjects1 == wobjects0
        &&& nobjects1 == nobjects0
        &&& sobjects1 == sobjects0
        &&& mid == level0
    }
    &&& tape1 == t2
    &&& cratered(mid, level1, large_sprites, tex, tex.sframe + fill, px - 7, py - 7, weapon.dirt_effect >= 0)
}

/// A projectile of `weapon` exploding at the fixed-point position `pos`,
/// fired by `owner_idx`. At the projectile's pixel `(px, py)`: first the
/// explosion of object type `create_on_exp` (iff it is non-negative; see
/// [`sobject_create`] and [`blast`]), then the weapon's own crater (iff
/// `dirt_effect >= 0`) with its window at `(px - 7, py - 7)` and the fill draw
/// below its `rframe`, over the level the explosion left ([`blown_up`]).
pub fn blow_up(
    weapon: &Weapon,
    level: &mut LevelSim,
    large_sprites: &SpriteSet,
    textures: &[Texture],
    pos: Vec2,
    owner_idx: i32,
    sobject_types: &[SObjectType],
    nobject_types: &[NObjectType],
    cossin: &[Vec2; 128],
    worms: &mut Vec<WormState>,
    wobjects: &mut Pool<WObject>,
    weapons: &[Weapon],
    nobjects: &mut Pool<NObject>,
    sobjects: &mut Pool<SObject>,
    blood: i32,
    draws: &mut Draws,
)
    requires
        weapon.splinter_amount <= 0,
        old(draws).wf(),
        old(level).wf(),
        weapon.create_on_exp >= 0 ==> {
            &&& weapon.create_on_exp < sobject_types@.len()
            &&& old(sobjects).wf()
            &&& exists|i: int| 0 <= i < old(sobjects)@.len() && #[trigger] old(sobjects)@[i] is None
            &&& blast_ok(sobject_types@[weapon.create_on_exp as int], spec_ftoi(pos.x) as i32, spec_ftoi(pos.y) as i32,
                old(worms)@, *old(wobjects), weapons@, *old(nobjects), nobject_types@, *old(level),
                *large_sprites, textures@, blood)
        },
        weapon.dirt_effect >= 0 ==> crater_ok(*large_sprites, textures@, weapon.dirt_effect),
    ensures
        final(draws).wf(),
        weapon.create_on_exp >= 0 ==> final(sobjects).wf(),
        old(sobjects).wf() ==> final(sobjects).wf(),
        final(sobjects)@.len() == old(sobjects)@.len(),
        final(level).wf(),
        final(level).width == old(level).width,
        final(level).height == old(level).height,
        final(worms)@.len() == old(worms)@.len(),
        forall|i: int| 0 <= i < old(worms)@.len() ==> #[trigger] final(worms)@[i] == (WormState {
            vel: final(worms)@[i].vel,
            health: final(worms)@[i].health,
            last_killed_by_idx: final(worms)@[i].last_killed_by_idx,
            ..old(worms)@[i]
        }),
        velocities_only(old(wobjects)@, final(wobjects)@),
        old(wobjects).wf() ==> final(wobjects).wf(),
        wobjects_typed(old(wobjects)@, weapons@.len() as int) ==> wobjects_typed(final(wobjects)@, weapons@.len() as int),
        old(nobjects).wf() ==> final(nobjects).wf(),
        final(nobjects)@.len() == old(nobjects)@.len(),
        nobjects_typed(old(nobjects)@, nobject_types@.len() as int) ==> nobjects_typed(final(nobjects)@, nobject_types@.len() as int),
        exists|mid: LevelSim| #[trigger] blown_up(*weapon, pos, owner_idx, sobject_types@, nobject_types@, cossin@,
            *large_sprites, textures@, weapons@, blood, *old(level), old(worms)@, old(wobjects)@,
            old(nobjects)@, old(sobjects)@, old(draws)@, mid, *final(level), final(worms)@,
            final(wobjects)@, final(nobjects)@, final(sobjects)@, final(draws)@),
{
    let ghost level0 = *level;
    let ghost worms0 = worms@;
    let ghost wobjects0 = wobjects@;
    let ghost nobjects0 = nobjects@;
    let ghost sobjects0 = sobjects@;
    let ghost tape0 = draws@;
    let px = ftoi(pos.x);
    let py = ftoi(pos.y);
    if weapon.create_on_exp >= 0 {
        let st = &sobject_types[weapon.create_on_exp as usize];
        sobject_create(st, px, py, owner_idx, worms, wobjects, weapons, nobjects, nobject_types, level,
            cossin, large_sprites, textures, sobjects, blood, draws);
    }
    let ghost mid = *level;
    let ghost tm = draws@;
    if weapon.dirt_effect >= 0 {
        let tex = &textures[weapon.dirt_effect as usize];
        let fill = draws.bound(tex.rframe as u32);
        proof {
            lemma_tape_bound_below(tm, tex.rframe as u32);
        }
        draw_dirt_effect(level, large_sprites, textures, weapon.dirt_effect, px - 7, py - 7, fill);
    }
    assert(blown_up(*weapon, pos, owner_idx, sobject_types@, nobject_types@, cossin@,
        *large_sprites, textures@, weapons@, blood, level0, worms0, wobjects0, nobjects0, sobjects0,
        tape0, mid, *level, worms@, wobjects@, nobjects@, sobjects@, draws@));
}

// ---------------------------------------------------------------------------
// The projectile walk
// ---------------------------------------------------------------------------

/// The tables of a projectile tick.
pub struct ProjectileRules {
    pub weapons: Seq<Weapon>,
    pub sobject_types: Seq<SObjectType>,
    pub nobject_types: Seq<NObjectType>,
    pub cossin: Seq<Vec2>,
    pub large_sprites: SpriteSet,
    pub textures: Seq<Texture>,
    pub blood: i32,
}

/// The state a walk over the projectile slots acts on.
pub struct ProjectileWalkState {
    pub worms: Seq<WormState>,
    pub wobjects: Seq<Option<WObject>>,
    pub nobjects: Seq<Option<NObject>>,
    pub sobjects: Seq<Option<SObject>>,
    pub level: LevelSim,
    pub tape: DrawTape,
}

/// The weapon of projectile `o`.
pub open spec fn weapon_of(c: ProjectileRules, o: WObject) -> Weapon {
    c.weapons[o.ty->0 as int]
}

/// The tick of the projectile at slot `k` of `s` cannot be carried out: it
/// explodes into an explosion object and there is no free slot for it.
pub open spec fn projectile_tick_blocked(c: ProjectileRules, k: int, s: ProjectileWalkState) -> bool {
    &&& s.wobjects[k] is Some
    &&& processed_wobject(s.wobjects[k]->0, s.level, weapon_of(c, s.wobjects[k]->0)).1 == WObjectOutcome::Explode
    &&& weapon_of(c, s.wobjects[k]->0).create_on_exp >= 0
    &&& all_live(s.sobjects)
}

/// The tick of the projectile at slot `k` takes `pre` to `post`: a live
/// projectile is [`processed_wobject`] and written back; one that explodes is
/// blown up at its new position ([`blown_up`]) and its slot freed.
pub open spec fn projectile_tick(c: ProjectileRules, k: int, pre: ProjectileWalkState, post: ProjectileWalkState) -> bool {
    if !(pre.wobjects[k] is Some) {
        post == pre
    } else {
        let o = pre.wobjects[k]->0;
        let w = weapon_of(c, o);
        let (o1, out) = processed_wobject(o, pre.level, w);
        if out == WObjectOutcome::Explode {
            exists|mid: LevelSim, wo: Seq<Option<WObject>>| {
                &&& #[trigger] blown_up(w, o1.pos, o1.owner_idx, c.sobject_types, c.nobject_types, c.cossin,
                    c.large_sprites, c.textures, c.weapons, c.blood, pre.level, pre.worms, pre.wobjects,
                    pre.nobjects, pre.sobjects, pre.tape, mid, post.level, post.worms, wo, post.nobjects,
                    post.sobjects, post.tape)
                &&& post.wobjects == wo.update(k, None)
            }
        } else {
            post == ProjectileWalkState { wobjects: pre.wobjects.update(k, Some(o1)), ..pre }
        }
    }
}

/// Link `j` of a projectile walk: slot `j` was not blocked and its tick took
/// state `j` to state `j + 1`.
pub open spec fn projectile_link(c: ProjectileRules, chain: Seq<ProjectileWalkState>, j: int) -> bool {
    &&& !projectile_tick_blocked(c, j, chain[j])
    &&& projectile_tick(c, j, chain[j], chain[j + 1])
}

/// `chain` walks from `init` to `last` ticking the projectiles: over all `cap`
/// slots when `r` is `Ok`, or up to the blocked slot `k` when `r` is `Err(k)`.
pub open spec fn projectile_walk(
    c: ProjectileRules,
    init: ProjectileWalkState,
    last: ProjectileWalkState,
    chain: Seq<ProjectileWalkState>,
    r: Result<(), usize>,
    cap: nat,
) -> bool {
    &&& forall|j: int| 0 <= j < chain.len() - 1 ==> #[trigger] projectile_link(c, chain, j)
    &&& chain.len() > 0
    &&& chain[0] == init
    &&& chain.last() == last
    &&& match r {
        Ok(()) => chain.len() == cap + 1,
        Err(k) => chain.len() == k + 1 && k < cap && projectile_tick_blocked(c, k as int, last),
    }
}

/// What the live projectiles of `wobjects` need for a tick: a weapon without
/// splinters, a fuse that does not underflow, an explosion (iff
/// `create_on_exp >= 0`) that meets [`blast_ok`] at every pixel a fixed-point
/// position can name, and the frames of the weapon's own crater.
pub open spec fn projectiles_ok(
    c: ProjectileRules,
    worms: Seq<WormState>,
    wobjects: Pool<WObject>,
    nobjects: Pool<NObject>,
    level: LevelSim,
) -> bool {
    forall|k: int| 0 <= k < wobjects@.len() && #[trigger] wobjects@[k] is Some ==> {
        let o = wobjects@[k]->0;
        let w = weapon_of(c, o);
        &&& w.splinter_amount <= 0
        &&& w.time_to_explo > 0 ==> o.time_left > i32::MIN
        &&& w.create_on_exp >= 0 ==> {
            &&& w.create_on_exp < c.sobject_types.len()
            &&& forall|x: i32, y: i32| -32768 <= x <= 32767 && -32768 <= y <= 32767 ==>
                #[trigger] blast_ok(c.sobject_types[w.create_on_exp as int], x, y, worms, wobjects, c.weapons,
                    nobjects, c.nobject_types, level, c.large_sprites, c.textures, c.blood)
        }
        &&& w.dirt_effect >= 0 ==> crater_ok(c.large_sprites, c.textures, w.dirt_effect)
    }
}

/// One tick of every projectile, in slot order ([`projectile_tick`]); an
/// exploding projectile reads its draws from `draws`.
///
/// The walk stops with `Err(k)` before touching anything at the first slot `k`
/// whose tick is [`projectile_tick_blocked`]; otherwise it returns `Ok(())`
/// after the last slot.
pub fn process_wobjects(
    wobjects: &mut Pool<WObject>,
    level: &mut LevelSim,
    worms: &mut Vec<WormState>,
    nobjects: &mut Pool<NObject>,
    sobjects: &mut Pool<SObject>,
    weapons: &[Weapon],
    sobject_types: &[SObjectType],
    nobject_types: &[NObjectType],
    cossin: &[Vec2; 128],
    large_sprites: &SpriteSet,
    textures: &[Texture],
    blood: i32,
    draws: &mut Draws,
) -> (r: Result<(), usize>)
    requires
        old(wobjects).wf(),
        wobjects_typed(old(wobjects)@, weapons@.len() as int),
        old(nobjects).wf(),
        nobjects_typed(old(nobjects)@, nobject_types@.len() as int),
        old(sobjects).wf(),
        old(level).wf(),
        old(draws).wf(),
        projectiles_ok(
            (ProjectileRules {
                weapons: weapons@,
                sobject_types: sobject_types@,
                nobject_types: nobject_types@,
                cossin: cossin@,
                large_sprites: *large_sprites,
                textures: textures@,
                blood,
            }),
            old(worms)@, *old(wobjects), *old(nobjects), *old(level)),
    ensures
        exists|chain: Seq<ProjectileWalkState>| #[trigger] projectile_walk(
            (ProjectileRules {
                weapons: weapons@,
                sobject_types: sobject_types@,
                nobject_types: nobject_types@,
                cossin: cossin@,
                large_sprites: *large_sprites,
                textures: textures@,
                blood,
            }),
            (ProjectileWalkState {
                worms: old(worms)@,
                wobjects: old(wobjects)@,
                nobjects: old(nobjects)@,
                sobjects: old(sobjects)@,
                level: *old(level),
                tape: old(draws)@,
            }),
            (ProjectileWalkState {
                worms: final(worms)@,
                wobjects: final(wobjects)@,
                nobjects: final(nobjects)@,
                sobjects: final(sobjects)@,
                level: *final(level),
                tape: final(draws)@,
            }),
            chain,
            r,
            old(wobjects)@.len(),
        ),
{
    let ghost c = ProjectileRules {
        weapons: weapons@,
        sobject_types: sobject_types@,
        nobject_types: nobject_types@,
        cossin: cossin@,
        large_sprites: *large_sprites,
        textures: textures@,
        blood,
    };
    let ghost worms0 = worms@;
    let ghost wo0 = *wobjects;
    let ghost no0 = *nobjects;
    let ghost lv0 = *level;
    let ghost mut chain: Seq<ProjectileWalkState> = seq![ProjectileWalkState {
        worms: worms@,
        wobjects: wobjects@,
        nobjects: nobjects@,
        sobjects: sobjects@,
        level: *level,
        tape: draws@,
    }];
    let ghost init = chain[0];
    let cap = wobjects.capacity();
    let mut slot: usize = 0;
    while slot < cap
        invariant
            slot <= cap,
            cap == wo0@.len(),
            cap == old(wobjects)@.len(),
            wobjects@.len() == cap,
            forall|j: int| slot <= j < cap ==> (#[trigger] wobjects@[j] is Some) == (wo0@[j] is Some),
            forall|j: int| slot <= j < cap && #[trigger] wo0@[j] is Some ==>
                wobjects@[j]->0 == (WObject { vel: wobjects@[j]->0.vel, ..wo0@[j]->0 }),
            worms@.len() == worms0.len(),
            forall|i: int| 0 <= i < worms0.len() ==> (#[trigger] worms@[i]).pos == worms0[i].pos,
            wobjects.wf(),
            wobjects_typed(wobjects@, weapons@.len() as int),
            wobjects_typed(wo0@, weapons@.len() as int),
            nobjects.wf(),
            nobjects@.len() == no0@.len(),
            nobjects_typed(nobjects@, nobject_types@.len() as int),
            sobjects.wf(),
            level.wf(),
            level.width == lv0.width,
            level.height == lv0.height,
            draws.wf(),
            projectiles_ok(c, worms0, wo0, no0, lv0),
            c == (ProjectileRules {
                weapons: weapons@,
                sobject_types: sobject_types@,
                nobject_types: nobject_types@,
                cossin: cossin@,
                large_sprites: *large_sprites,
                textures: textures@,
                blood,
            }),
            chain.len() == slot + 1,
            forall|j: int| 0 <= j < chain.len() - 1 ==> #[trigger] projectile_link(c, chain, j),
            chain[0] == init,
            init == (ProjectileWalkState {
                worms: old(worms)@,
                wobjects: old(wobjects)@,
                nobjects: old(nobjects)@,
                sobjects: old(sobjects)@,
                level: *old(level),
                tape: old(draws)@,
            }),
            chain.last() == (ProjectileWalkState {
                worms: worms@, wobjects: wobjects@, nobjects: nobjects@, sobjects: sobjects@,
                level: *level, tape: draws@,
            }),
        decreases cap - slot,
    {
        let ghost pre = chain.last();
        let current = wobjects.get(slot);
        match current {
            None => {
                proof {
                    let next = chain.push(pre);
                    assert(projectile_link(c, next, slot as int));
                    assert forall|j: int| 0 <= j < next.len() - 1 implies #[trigger] projectile_link(c, next, j) by {
                        if j < slot {
                            assert(projectile_link(c, chain, j));
                            assert(next[j] == chain[j] && next[j + 1] == chain[j + 1]);
                        }
                    }
                    chain = next;
                }
            },
            Some(oref) => {
                let o0 = *oref;
                let mut obj = o0;
                assert(wo0@[slot as int] is Some);
                assert(pre.wobjects[slot as int] == Some(o0));
                let wi = match o0.ty {
                    Some(t) => t,
                    None => 0,
                };
                let weapon = &weapons[wi as usize];
                assert(*weapon == weapon_of(c, o0));
                let out = wobject_process(&mut obj, level, weapon);
                match out {
                    WObjectOutcome::Explode => {
                        if weapon.create_on_exp >= 0 && sobjects.len() >= sobjects.capacity() {
                            proof {
                                lemma_live_count_bound(sobjects@);
                                assert(all_live(sobjects@));
                                assert(processed_wobject(o0, pre.level, weapon_of(c, o0)).1 == WObjectOutcome::Explode);
                                assert(projectile_tick_blocked(c, slot as int, pre));
                            }
                            assert(projectile_walk(c, init, pre, chain, Err(slot), cap as nat));
                            return Err(slot);
                        }
                        proof {
                            lemma_live_count_bound(sobjects@);
                            let px = spec_ftoi(obj.pos.x) as i32;
                            let py = spec_ftoi(obj.pos.y) as i32;
                            lemma_ftoi_range(obj.pos.x);
                            lemma_ftoi_range(obj.pos.y);
                            if weapon.create_on_exp >= 0 {
                                assert(!all_live(sobjects@));
                                let st = sobject_types@[weapon.create_on_exp as int];
                                let w0 = wo0@[slot as int]->0;
                                assert(w0.ty == o0.ty);
                                assert(weapon_of(c, w0) == *weapon);
                                assert(-32768 <= px <= 32767 && -32768 <= py <= 32767);
                                assert(blast_ok(c.sobject_types[weapon_of(c, w0).create_on_exp as int], px, py, worms0,
                                    wo0, c.weapons, no0, c.nobject_types, lv0, c.large_sprites, c.textures, c.blood));
                                assert(blast_ok(st, px, py, worms0, wo0, weapons@, no0, nobject_types@, lv0,
                                    *large_sprites, textures@, blood));
                                lemma_blast_ok_frame(st, px, py, worms0, worms@, wo0, *wobjects, weapons@, no0,
                                    *nobjects, nobject_types@, lv0, *level, *large_sprites, textures@, blood);
                            }
                        }
                        let ghost wo_before = wobjects@;
                        blow_up(weapon, level, large_sprites, textures, obj.pos, obj.owner_idx, sobject_types,
                            nobject_types, cossin, worms, wobjects, weapons, nobjects, sobjects, blood, draws);
                        let ghost wo_blown = wobjects@;
                        wobjects.free(slot);
                        proof {
                            let post = ProjectileWalkState {
                                worms: worms@, wobjects: wobjects@, nobjects: nobjects@, sobjects: sobjects@,
                                level: *level, tape: draws@,
                            };
                            let mid = choose|mid: LevelSim| #[trigger] blown_up(*weapon, obj.pos, obj.owner_idx,
                                sobject_types@, nobject_types@, cossin@, *large_sprites, textures@, weapons@, blood,
                                pre.level, pre.worms, pre.wobjects, pre.nobjects, pre.sobjects, pre.tape, mid,
                                *level, worms@, wo_blown, nobjects@, sobjects@, draws@);
                            assert(blown_up(*weapon, obj.pos, obj.owner_idx, c.sobject_types, c.nobject_types,
                                c.cossin, c.large_sprites, c.textures, c.weapons, c.blood, pre.level, pre.worms,
                                pre.wobjects, pre.nobjects, pre.sobjects, pre.tape, mid, post.level, post.worms,
                                wo_blown, post.nobjects, post.sobjects, post.tape));
                            assert(projectile_tick(c, slot as int, pre, post));
                            let next = chain.push(post);
                            assert(projectile_link(c, next, slot as int));
                            assert forall|j: int| 0 <= j < next.len() - 1 implies #[trigger] projectile_link(c, next, j) by {
                                if j < slot {
                                    assert(projectile_link(c, chain, j));
                                    assert(next[j] == chain[j] && next[j + 1] == chain[j + 1]);
                                }
                            }
                            chain = next;
                            assert forall|j: int| slot + 1 <= j < cap && #[trigger] wo0@[j] is Some implies
                                wobjects@[j]->0 == (WObject { vel: wobjects@[j]->0.vel, ..wo0@[j]->0 }) by {
                                assert(wo_before[j] is Some);
                            }
                        }
                    },
                    _ => {
                        match wobjects.get_mut(slot) {
                            Some(m) => {
                                *m = obj;
                            },
                            None => {},
                        }
                        proof {
                            let post = ProjectileWalkState {
                                worms: worms@, wobjects: wobjects@, nobjects: nobjects@, sobjects: sobjects@,
                                level: *level, tape: draws@,
                            };
                            let next = chain.push(post);
                            assert(projectile_link(c, next, slot as int));
                            assert forall|j: int| 0 <= j < next.len() - 1 implies #[trigger] projectile_link(c, next, j) by {
                                if j < slot {
                                    assert(projectile_link(c, chain, j));
                                    assert(next[j] == chain[j] && next[j + 1] == chain[j + 1]);
                                }
                            }
                            chain = next;
                        }
                    },
                }
            },
        }
        slot += 1;
    }
    assert(projectile_walk(c, init, chain.last(), chain, Ok(()), cap as nat));
    Ok(())
}

} // verus!
