//! Explosion objects: the per-tick animation, and the random-free parts of an
//! explosion — spawning its object, the blast on worms, the push on pooled
//! objects, and the scan for the dirt cells it may throw.
//!
//! An explosion at pixel `(x, y)` with blast half-width `dr` reaches the
//! points strictly inside `(x - dr, x + dr) x (y - dr, y + dr)`. Its random
//! draws (sound, blood, dirt throw, crater) are made by the caller between
//! these steps, in the order: sound, then per worm the blast with its blood
//! and hit sound, then the object pushes (no draws), then the dirt throw over
//! [`dirt_throw_cells`], then the crater.

use vstd::prelude::*;
use crate::fixed::{abs_i32, ftoi, itof, spec_ftoi, spec_wrapping_abs, trunc_div, vec_div, wrapping_abs_i32, Vec2};
use crate::object_types::{NObjectType, SObjectType, Weapon};
use crate::blit::{crater_ok, cratered, draw_dirt_effect, SpriteSet, Texture};
use crate::draws::{lemma_tape_bound_below, tape_bound, DrawTape, Draws};
use crate::nobject::{draw_spawn2, lemma_read_spawn2_fits, new_nobject2, nobject_create2, read_spawn2, spawn2_type_ok};
use crate::pool::{is_lowest_free, reuse_slot, reused, Pool};
use crate::state::{
    abs_int, damaged, has_flag, LevelSim, NObject, SObject, WObject, WormState, MAT_DIRT, MAT_DIRT2,
};
use vstd::wrapping::i32_specs::{wrapping_add, wrapping_mul, wrapping_sub};

verus! {

/// The driver's verdict for a processed explosion object.
#[derive(Clone, Copy, PartialEq, Eq, Debug)]
pub enum SObjectOutcome {
    /// Keep the object in its slot.
    Keep,
    /// Free the slot (the animation finished).
    Free,
}

/// One animation tick of `obj`: the delay counts down; when it reaches zero it
/// reloads from the type and the frame advances, and a frame past the type's
/// last frame ends the object.
pub open spec fn processed_sobject(obj: SObject, ty: SObjectType) -> (SObject, SObjectOutcome) {
    let d = obj.anim_delay - 1;
    if d <= 0 {
        let f = obj.cur_frame + 1;
        (
            SObject { anim_delay: ty.anim_delay, cur_frame: f as i32, ..obj },
            if f > ty.num_frames { SObjectOutcome::Free } else { SObjectOutcome::Keep },
        )
    } else {
        (SObject { anim_delay: d as i32, ..obj }, SObjectOutcome::Keep)
    }
}

/// Advances `obj` by one tick; see [`processed_sobject`].
pub fn sobject_process(obj: &mut SObject, ty: &SObjectType) -> (r: SObjectOutcome)
    requires
        old(obj).anim_delay > i32::MIN,
        old(obj).anim_delay - 1 <= 0 ==> old(obj).cur_frame < i32::MAX,
    ensures
        (*final(obj), r) == processed_sobject(*old(obj), *ty),
{
    obj.anim_delay -= 1;
    if obj.anim_delay <= 0 {
        obj.anim_delay = ty.anim_delay;
        obj.cur_frame += 1;
        if obj.cur_frame > ty.num_frames {
            return SObjectOutcome::Free;
        }
    }
    SObjectOutcome::Keep
}

/// The object after `n` animation ticks ([`processed_sobject`]), and whether
/// one of them ended it.
pub open spec fn sobject_ticks(o: SObject, ty: SObjectType, n: nat) -> (SObject, bool)
    decreases n,
{
    if n == 0 {
        (o, false)
    } else {
        let (p, ended) = sobject_ticks(o, ty, (n - 1) as nat);
        let (q, out) = processed_sobject(p, ty);
        (q, ended || out == SObjectOutcome::Free)
    }
}

/// One step of the tick count `n` by a positive delay `d`: the quotient and
/// remainder of `n + 1` from those of `n`.
proof fn lemma_div_mod_step(n: int, d: int)
    requires
        0 <= n,
        0 < d,
    ensures
        n % d == d - 1 ==> (n + 1) / d == n / d + 1 && (n + 1) % d == 0,
        n % d != d - 1 ==> (n + 1) / d == n / d && (n + 1) % d == n % d + 1,
{
    vstd::arithmetic::div_mod::lemma_fundamental_div_mod(n, d);
    vstd::arithmetic::div_mod::lemma_fundamental_div_mod(n + 1, d);
    let q = n / d;
    let r = n % d;
    if r == d - 1 {
        assert(n + 1 == (q + 1) * d + 0) by (nonlinear_arith) requires n == d * q + r, r == d - 1;
        vstd::arithmetic::div_mod::lemma_fundamental_div_mod_converse(n + 1, d, q + 1, 0);
    } else {
        assert(n + 1 == q * d + (r + 1)) by (nonlinear_arith) requires n == d * q + r;
        assert(0 <= r + 1 < d);
        vstd::arithmetic::div_mod::lemma_fundamental_div_mod_converse(n + 1, d, q, r + 1);
    }
}

/// An explosion object lives for `num_frames + 1` frames of `anim_delay`
/// ticks each: starting fresh, after `n` ticks it shows frame `n / anim_delay`
/// with `anim_delay - n % anim_delay` ticks left on it and has not ended, as
/// long as `n < (num_frames + 1) * anim_delay`.
pub proof fn lemma_sobject_lifetime_running(ty: SObjectType, x: i32, y: i32, n: nat)
    requires
        1 <= ty.anim_delay,
        0 <= ty.num_frames < i32::MAX,
        x >= i32::MIN + 8,
        y >= i32::MIN + 8,
        n < (ty.num_frames + 1) * ty.anim_delay,
    ensures
        ({
            let (o, ended) = sobject_ticks(new_sobject(ty, x, y), ty, n);
            &&& !ended
            &&& o.cur_frame == (n as int) / (ty.anim_delay as int)
            &&& o.anim_delay == ty.anim_delay - (n as int) % (ty.anim_delay as int)
            &&& o.id == ty.id
        }),
    decreases n,
{
    let d = ty.anim_delay as int;
    if n > 0 {
        let m = (n - 1) as nat;
        lemma_sobject_lifetime_running(ty, x, y, m);
        lemma_div_mod_step(m as int, d);
        vstd::arithmetic::div_mod::lemma_div_pos_is_pos(n as int, d);
        assert((n as int) / d <= ty.num_frames) by {
            vstd::arithmetic::div_mod::lemma_div_is_ordered(n as int, (ty.num_frames + 1) * d - 1, d);
            vstd::arithmetic::div_mod::lemma_fundamental_div_mod((ty.num_frames + 1) * d - 1, d);
            assert(((ty.num_frames + 1) * d - 1) / d == ty.num_frames) by {
                assert((ty.num_frames + 1) * d - 1 == d * ty.num_frames + (d - 1)) by (nonlinear_arith);
                vstd::arithmetic::div_mod::lemma_fundamental_div_mod_converse((ty.num_frames + 1) * d - 1, d,
                    ty.num_frames as int, d - 1);
            }
        }
    }
}

/// ... and it ends on exactly tick `(num_frames + 1) * anim_delay`.
pub proof fn lemma_sobject_lifetime_ends(ty: SObjectType, x: i32, y: i32)
    requires
        1 <= ty.anim_delay,
        0 <= ty.num_frames < i32::MAX,
        x >= i32::MIN + 8,
        y >= i32::MIN + 8,
        (ty.num_frames + 1) * ty.anim_delay <= i32::MAX,
    ensures
        sobject_ticks(new_sobject(ty, x, y), ty, ((ty.num_frames + 1) * ty.anim_delay) as nat).1,
{
    let d = ty.anim_delay as int;
    let total = (ty.num_frames + 1) * d;
    assert(total >= 1) by (nonlinear_arith) requires ty.num_frames >= 0, d >= 1, total == (ty.num_frames + 1) * d;
    let m = (total - 1) as nat;
    lemma_sobject_lifetime_running(ty, x, y, m);
    lemma_div_mod_step(m as int, d);
    vstd::arithmetic::div_mod::lemma_fundamental_div_mod_converse(total, d, ty.num_frames + 1, 0);
    vstd::arithmetic::div_mod::lemma_fundamental_div_mod(m as int, d);
}

/// The object an explosion of type `ty` centred at `(x, y)` starts as: its
/// top-left 8 pixels up and left of the centre, on the first frame.
pub open spec fn new_sobject(ty: SObjectType, x: i32, y: i32) -> SObject {
    SObject { id: ty.id, x: (x - 8) as i32, y: (y - 8) as i32, cur_frame: 0, anim_delay: ty.anim_delay }
}

/// Spawns the object of an explosion of type `ty` centred at `(x, y)` into the
/// lowest free slot and returns the slot.
pub fn sobject_spawn(sobjects: &mut Pool<SObject>, ty: &SObjectType, x: i32, y: i32) -> (r: usize)
    requires
        old(sobjects).wf(),
        exists|i: int| 0 <= i < old(sobjects)@.len() && #[trigger] old(sobjects)@[i] is None,
        x >= i32::MIN + 8,
        y >= i32::MIN + 8,
    ensures
        final(sobjects).wf(),
        is_lowest_free(old(sobjects)@, r as int),
        final(sobjects)@ == old(sobjects)@.update(r as int, Some(new_sobject(*ty, x, y))),
{
    let obj = SObject { id: ty.id, x: x - 8, y: y - 8, cur_frame: 0, anim_delay: ty.anim_delay };
    match sobjects.spawn(obj) {
        Some(i) => i,
        None => {
            proof {
                let i = choose|i: int| 0 <= i < old(sobjects)@.len() && #[trigger] old(sobjects)@[i] is None;
                assert(old(sobjects)@[i] is Some);
            }
            0
        },
    }
}

// ---------------------------------------------------------------------------
// Blast geometry
// ---------------------------------------------------------------------------

/// `c - d` and `c + d` both fit `i32`.
pub open spec fn span_fits(c: i32, d: int) -> bool {
    &&& i32::MIN <= c - d <= i32::MAX
    &&& i32::MIN <= c + d <= i32::MAX
}

/// Pixel `(px, py)` lies strictly inside the blast box of half-width `dr` at `(x, y)`.
pub open spec fn in_blast(px: int, py: int, x: int, y: int, dr: int) -> bool {
    px < x + dr && px > x - dr && py < y + dr && py > y - dr
}

/// The blast's strength at coordinate `p` along an axis centred at `c`.
pub open spec fn blast_power(p: int, c: int, dr: int) -> int {
    dr - abs_int(p - c)
}

/// A worm's velocity component after the blast push: only a component slower
/// than 2 pixels per tick is pushed, away from the centre (a worm on the
/// centre line is pushed toward negative). The speed is the two's-complement
/// magnitude, so `i32::MIN` counts as slow.
pub open spec fn worm_push(v: i32, delta: int, power: int, k: i32) -> i32 {
    if spec_wrapping_abs(v) < 2 * 65536 {
        if delta > 0 {
            wrapping_add(v, wrapping_mul(k, power as i32))
        } else {
            wrapping_sub(v, wrapping_mul(k, power as i32))
        }
    } else {
        v
    }
}

/// A pooled object's velocity component after the blast push: pushed away
/// from the centre when the power is positive; unchanged on the centre line.
pub open spec fn object_push(v: i32, delta: int, power: int, k: i32) -> i32 {
    if power > 0 {
        if delta > 0 {
            wrapping_add(v, wrapping_mul(k, power as i32))
        } else if delta < 0 {
            wrapping_sub(v, wrapping_mul(k, power as i32))
        } else {
            v
        }
    } else {
        v
    }
}

/// The worm's pixel position.
pub open spec fn worm_pixel(w: WormState) -> (int, int) {
    (spec_ftoi(w.pos.x), spec_ftoi(w.pos.y))
}

/// The averaged blast power on a worm inside the blast box.
pub open spec fn worm_power_sum(w: WormState, x: i32, y: i32, dr: i32) -> int {
    let (px, py) = worm_pixel(w);
    (blast_power(px, x as int, dr as int) + blast_power(py, y as int, dr as int)) / 2
}

/// The worm inside the blast box after the push and, when it was alive, the
/// damage `damage * power_sum / dr` from `owner_idx`.
pub open spec fn blasted_worm(w: WormState, ty: SObjectType, x: i32, y: i32, owner_idx: i32) -> WormState {
    let dr = ty.detect_range;
    let (px, py) = worm_pixel(w);
    let pushed = WormState {
        vel: Vec2 {
            x: worm_push(w.vel.x, px - x, blast_power(px, x as int, dr as int), ty.blow_away),
            y: worm_push(w.vel.y, py - y, blast_power(py, y as int, dr as int), ty.blow_away),
        },
        ..w
    };
    if w.health > 0 {
        damaged(pushed, trunc_div(ty.damage * worm_power_sum(w, x, y, dr), dr as int) as i32, owner_idx)
    } else {
        pushed
    }
}

/// The push of a blast on one velocity component of a worm at offset `delta`
/// from the centre with power `power` and push factor `k >= 0`: a component
/// slower than 2 pixels per tick gains `k * power` when the worm lies past the
/// centre (`delta > 0`) and loses it otherwise, so the push always points
/// away from the centre; a faster component is left alone. Stated for
/// results that fit `i32`.
proof fn lemma_worm_push_away(v: i32, delta: int, power: int, k: i32)
    requires
        0 < power <= i32::MAX,
        0 <= k,
        k * power <= i32::MAX,
    ensures
        (-2 * 65536 < v < 2 * 65536 && delta > 0 && v + k * power <= i32::MAX)
            ==> worm_push(v, delta, power, k) == v + k * power,
        (-2 * 65536 < v < 2 * 65536 && delta <= 0 && i32::MIN <= v - k * power)
            ==> worm_push(v, delta, power, k) == v - k * power,
        (v <= -2 * 65536 && v != i32::MIN) || v >= 2 * 65536 ==> worm_push(v, delta, power, k) == v,
{
    assert(0 <= k * power) by (nonlinear_arith) requires 0 <= k, 0 < power;
    crate::fixed::lemma_wrapping_mul_exact(k, power as i32);
}

/// A blast pushes a worm inside its box away from the centre: a component of
/// the worm's velocity slower than 2 pixels per tick changes by
/// `blow_away * (detect_range - |offset|)`, upward in `x` (`y`) when the worm's
/// pixel lies right of (below) the blast and downward when it lies left of
/// (above) it; a faster component is unchanged. Stated for a non-negative
/// `blow_away` and results that fit `i32`.
pub proof fn law_blast_pushes_worm_away(w: WormState, ty: SObjectType, x: i32, y: i32, owner_idx: i32)
    requires
        in_blast(spec_ftoi(w.pos.x), spec_ftoi(w.pos.y), x as int, y as int, ty.detect_range as int),
        0 <= ty.blow_away,
    ensures
        ({
            let r = blasted_worm(w, ty, x, y, owner_idx);
            let dr = ty.detect_range as int;
            let dx = spec_ftoi(w.pos.x) - x;
            let dy = spec_ftoi(w.pos.y) - y;
            let kx = ty.blow_away * (dr - abs_int(dx));
            let ky = ty.blow_away * (dr - abs_int(dy));
            &&& (-2 * 65536 < w.vel.x < 2 * 65536 && dx > 0 && w.vel.x + kx <= i32::MAX) ==> r.vel.x == w.vel.x + kx
            &&& (-2 * 65536 < w.vel.x < 2 * 65536 && dx < 0 && i32::MIN <= w.vel.x - kx) ==> r.vel.x == w.vel.x - kx
            &&& (-2 * 65536 < w.vel.y < 2 * 65536 && dy > 0 && w.vel.y + ky <= i32::MAX) ==> r.vel.y == w.vel.y + ky
            &&& (-2 * 65536 < w.vel.y < 2 * 65536 && dy < 0 && i32::MIN <= w.vel.y - ky) ==> r.vel.y == w.vel.y - ky
            &&& ((w.vel.x <= -2 * 65536 && w.vel.x != i32::MIN) || w.vel.x >= 2 * 65536) ==> r.vel.x == w.vel.x
            &&& ((w.vel.y <= -2 * 65536 && w.vel.y != i32::MIN) || w.vel.y >= 2 * 65536) ==> r.vel.y == w.vel.y
        }),
{
    let dr = ty.detect_range as int;
    let (px, py) = worm_pixel(w);
    let powx = blast_power(px, x as int, dr);
    let powy = blast_power(py, y as int, dr);
    assert(0 < powx <= i32::MAX);
    assert(0 < powy <= i32::MAX);
    let kx = ty.blow_away * powx;
    let ky = ty.blow_away * powy;
    if kx <= i32::MAX {
        lemma_worm_push_away(w.vel.x, px - x, powx, ty.blow_away);
    }
    if ky <= i32::MAX {
        lemma_worm_push_away(w.vel.y, py - y, powy, ty.blow_away);
    }
}

/// A blast wounds a live worm inside its box by `damage * power_sum / dr`
/// (truncating), where `power_sum` averages the per-axis powers
/// `dr - |offset|`, and never heals it: with a non-negative damage and a
/// product that fits `i32`, the worm's health drops by exactly that amount,
/// and a dead worm's health is untouched.
pub proof fn law_blast_wounds_by_power(w: WormState, ty: SObjectType, x: i32, y: i32, owner_idx: i32)
    requires
        in_blast(spec_ftoi(w.pos.x), spec_ftoi(w.pos.y), x as int, y as int, ty.detect_range as int),
        0 <= ty.damage,
        ty.damage * worm_power_sum(w, x, y, ty.detect_range) <= i32::MAX,
    ensures
        ({
            let dr = ty.detect_range as int;
            let dx = spec_ftoi(w.pos.x) - x;
            let dy = spec_ftoi(w.pos.y) - y;
            let ps = ((dr - abs_int(dx)) + (dr - abs_int(dy))) / 2;
            let z = (ty.damage * ps) / dr;
            let r = blasted_worm(w, ty, x, y, owner_idx);
            &&& w.health > 0 ==> r.health == w.health - z
            &&& w.health > 0 ==> r.health <= w.health
            &&& w.health <= 0 ==> r.health == w.health
        }),
{
    let dr = ty.detect_range as int;
    let ps = worm_power_sum(w, x, y, ty.detect_range);
    assert(0 < ps);
    assert(0 <= ty.damage * ps) by (nonlinear_arith) requires 0 <= ty.damage, 0 < ps;
    assert(0 <= (ty.damage * ps) / dr <= ty.damage * ps) by (nonlinear_arith)
        requires 0 <= ty.damage * ps, 0 < dr;
}

/// The preconditions of a blast of `ty` at `(x, y)` on `w`: the box edges and,
/// for a worm inside the box, the power, damage and blood arithmetic fit `i32`.
pub open spec fn blast_fits(w: WormState, ty: SObjectType, x: i32, y: i32, blood: i32) -> bool {
    let dr = ty.detect_range as int;
    let (px, py) = worm_pixel(w);
    &&& span_fits(x, dr)
    &&& span_fits(y, dr)
    &&& in_blast(px, py, x as int, y as int, dr) ==> {
        &&& blast_power(px, x as int, dr) + blast_power(py, y as int, dr) <= i32::MAX
        &&& i32::MIN <= ty.damage * worm_power_sum(w, x, y, ty.detect_range) <= i32::MAX
        &&& i32::MIN <= blood * worm_power_sum(w, x, y, ty.detect_range) <= i32::MAX
    }
}

/// Applies the blast of an explosion of type `ty` at `(x, y)` caused by
/// `owner_idx` to one worm. A worm outside the blast box is untouched and the
/// result is `None`. A worm inside is pushed ([`worm_push`]); if it was alive
/// it is also damaged, and the result is the number of blood particles to
/// spray, `blood * power_sum / 100`; a dead worm inside gives `None`.
pub fn worm_blast(w: &mut WormState, ty: &SObjectType, x: i32, y: i32, owner_idx: i32, blood: i32) -> (r: Option<i32>)
    requires
        blast_fits(*old(w), *ty, x, y, blood),
    ensures
        ({
            let (px, py) = worm_pixel(*old(w));
            if in_blast(px, py, x as int, y as int, ty.detect_range as int) {
                &&& *final(w) == blasted_worm(*old(w), *ty, x, y, owner_idx)
                &&& r == if old(w).health > 0 {
                    Some(trunc_div(blood * worm_power_sum(*old(w), x, y, ty.detect_range), 100) as i32)
                } else {
                    None::<i32>
                }
            } else {
                *final(w) == *old(w) && r is None
            }
        }),
{
    let ghost w0 = *w;
    let dr = ty.detect_range;
    let kwix = ftoi(w.pos.x);
    let kwiy = ftoi(w.pos.y);
    if !(kwix < x + dr && kwix > x - dr && kwiy < y + dr && kwiy > y - dr) {
        return None;
    }
    let delta_x = kwix - x;
    let power_x = dr - abs_i32(delta_x);
    if wrapping_abs_i32(w.vel.x) < 2 * 65536 {
        if delta_x > 0 {
            w.vel.x = w.vel.x.wrapping_add(ty.blow_away.wrapping_mul(power_x));
        } else {
            w.vel.x = w.vel.x.wrapping_sub(ty.blow_away.wrapping_mul(power_x));
        }
    }
    let delta_y = kwiy - y;
    let power_y = dr - abs_i32(delta_y);
    if wrapping_abs_i32(w.vel.y) < 2 * 65536 {
        if delta_y > 0 {
            w.vel.y = w.vel.y.wrapping_add(ty.blow_away.wrapping_mul(power_y));
        } else {
            w.vel.y = w.vel.y.wrapping_sub(ty.blow_away.wrapping_mul(power_y));
        }
    }
    let power_sum = (power_x + power_y) / 2;
    assert(power_sum == worm_power_sum(w0, x, y, dr));
    let ghost pushed = *w;
    assert(pushed == WormState {
        vel: Vec2 {
            x: worm_push(w0.vel.x, kwix - x, blast_power(kwix as int, x as int, dr as int), ty.blow_away),
            y: worm_push(w0.vel.y, kwiy - y, blast_power(kwiy as int, y as int, dr as int), ty.blow_away),
        },
        ..w0
    });
    if w.health > 0 {
        let mut z = ty.damage * power_sum;
        z = z / dr;
        assert(z == trunc_div(ty.damage * power_sum, dr as int)) by {
            assert(dr > 0);
        }
        w.do_damage(z, owner_idx);
        let amount = blood * power_sum / 100;
        Some(amount)
    } else {
        None
    }
}

/// The velocity of a pooled object at `pos` after the push of a blast of
/// half-width `dr` at `(x, y)` with push factor `k`.
pub open spec fn pushed_vel(pos: Vec2, vel: Vec2, x: i32, y: i32, dr: i32, k: i32) -> Vec2 {
    let px = spec_ftoi(pos.x);
    let py = spec_ftoi(pos.y);
    if in_blast(px, py, x as int, y as int, dr as int) {
        Vec2 {
            x: object_push(vel.x, px - x, blast_power(px, x as int, dr as int), k),
            y: object_push(vel.y, py - y, blast_power(py, y as int, dr as int), k),
        }
    } else {
        vel
    }
}

/// A blast pushes a pooled object inside its box away from the centre: each
/// velocity component changes by `k * (dr - |offset|)`, upward in `x` (`y`)
/// when the object's pixel lies right of (below) the centre, downward when
/// left of (above) it, and not at all on the centre line; an object outside
/// the box keeps its velocity. Stated for `k >= 0` and results that fit `i32`.
pub proof fn law_blast_pushes_objects_away(pos: Vec2, vel: Vec2, x: i32, y: i32, dr: i32, k: i32)
    requires
        0 <= k,
    ensures
        ({
            let r = pushed_vel(pos, vel, x, y, dr, k);
            let dx = spec_ftoi(pos.x) - x;
            let dy = spec_ftoi(pos.y) - y;
            let kx = k * (dr - abs_int(dx));
            let ky = k * (dr - abs_int(dy));
            &&& !in_blast(spec_ftoi(pos.x), spec_ftoi(pos.y), x as int, y as int, dr as int) ==> r == vel
            &&& in_blast(spec_ftoi(pos.x), spec_ftoi(pos.y), x as int, y as int, dr as int) ==> {
                &&& dx == 0 ==> r.x == vel.x
                &&& dy == 0 ==> r.y == vel.y
                &&& (dx > 0 && vel.x + kx <= i32::MAX) ==> r.x == vel.x + kx
                &&& (dx < 0 && i32::MIN <= vel.x - kx) ==> r.x == vel.x - kx
                &&& (dy > 0 && vel.y + ky <= i32::MAX) ==> r.y == vel.y + ky
                &&& (dy < 0 && i32::MIN <= vel.y - ky) ==> r.y == vel.y - ky
            }
        }),
{
    let px = spec_ftoi(pos.x);
    let py = spec_ftoi(pos.y);
    if in_blast(px, py, x as int, y as int, dr as int) {
        let powx = blast_power(px, x as int, dr as int);
        let powy = blast_power(py, y as int, dr as int);
        assert(0 < powx <= i32::MAX);
        assert(0 < powy <= i32::MAX);
        if k * powx <= i32::MAX {
            crate::fixed::lemma_wrapping_mul_exact(k, powx as i32);
        }
        if k * powy <= i32::MAX {
            crate::fixed::lemma_wrapping_mul_exact(k, powy as i32);
        }
    }
}

/// The pushed velocity of an object at `pos`.
fn push_vel(pos: Vec2, vel: Vec2, x: i32, y: i32, dr: i32, k: i32) -> (r: Vec2)
    requires
        span_fits(x, dr as int),
        span_fits(y, dr as int),
    ensures
        r == pushed_vel(pos, vel, x, y, dr, k),
{
    let ipx = ftoi(pos.x);
    let ipy = ftoi(pos.y);
    if !(ipx < x + dr && ipx > x - dr && ipy < y + dr && ipy > y - dr) {
        return vel;
    }
    let mut r = vel;
    let delta = ipx - x;
    let power = dr - abs_i32(delta);
    if power > 0 {
        if delta > 0 {
            r.x = r.x.wrapping_add(k.wrapping_mul(power));
        } else if delta < 0 {
            r.x = r.x.wrapping_sub(k.wrapping_mul(power));
        }
    }
    let delta = ipy - y;
    let power = dr - abs_i32(delta);
    if power > 0 {
        if delta > 0 {
            r.y = r.y.wrapping_add(k.wrapping_mul(power));
        } else if delta < 0 {
            r.y = r.y.wrapping_sub(k.wrapping_mul(power));
        }
    }
    r
}

/// A projectile after the push of a blast: pushed only when its weapon is
/// affected by explosions.
pub open spec fn blown_wobject(weapons: Seq<Weapon>, o: WObject, x: i32, y: i32, dr: i32, k: i32) -> WObject {
    if o.ty is Some && 0 <= o.ty->0 < weapons.len() && weapons[o.ty->0 as int].affect_by_explosions {
        WObject { vel: pushed_vel(o.pos, o.vel, x, y, dr, k), ..o }
    } else {
        o
    }
}

/// A non-weapon object after the push of a blast: pushed only when its type is
/// affected by explosions.
pub open spec fn blown_nobject(types: Seq<NObjectType>, o: NObject, x: i32, y: i32, dr: i32, k: i32) -> NObject {
    if o.ty is Some && 0 <= o.ty->0 < types.len() && types[o.ty->0 as int].affect_by_explosions {
        NObject { vel: pushed_vel(o.pos, o.vel, x, y, dr, k), ..o }
    } else {
        o
    }
}

/// Every live projectile carries a type inside the weapon table.
pub open spec fn wobjects_typed(s: Seq<Option<WObject>>, n: int) -> bool {
    forall|i: int| 0 <= i < s.len() && #[trigger] s[i] is Some ==>
        s[i]->0.ty is Some && 0 <= s[i]->0.ty->0 < n
}

/// Every live non-weapon object carries a type inside the type table.
pub open spec fn nobjects_typed(s: Seq<Option<NObject>>, n: int) -> bool {
    forall|i: int| 0 <= i < s.len() && #[trigger] s[i] is Some ==>
        s[i]->0.ty is Some && 0 <= s[i]->0.ty->0 < n
}

/// Pushes every live projectile whose weapon is affected by explosions away
/// from the blast of `ty` at `(x, y)`, with a third of the type's push factor.
pub fn blow_away_wobjects(wobjects: &mut Pool<WObject>, weapons: &[Weapon], ty: &SObjectType, x: i32, y: i32)
    requires
        old(wobjects).wf(),
        wobjects_typed(old(wobjects)@, weapons@.len() as int),
        span_fits(x, ty.detect_range as int),
        span_fits(y, ty.detect_range as int),
    ensures
        final(wobjects).wf(),
        final(wobjects)@.len() == old(wobjects)@.len(),
        forall|i: int| 0 <= i < old(wobjects)@.len() ==> #[trigger] final(wobjects)@[i] == match old(wobjects)@[i] {
            Some(o) => Some(blown_wobject(weapons@, o, x, y, ty.detect_range, trunc_div(ty.blow_away as int, 3) as i32)),
            None => None,
        },
{
    let k = ty.blow_away / 3;
    let dr = ty.detect_range;
    wobjects.iter_mut(|o: &WObject| -> (r: WObject)
        requires
            span_fits(x, dr as int),
            span_fits(y, dr as int),
        ensures
            r == blown_wobject(weapons@, *o, x, y, dr, k),
    {
        let affected = match o.ty {
            Some(t) => 0 <= t && (t as usize) < weapons.len() && weapons[t as usize].affect_by_explosions,
            None => false,
        };
        if affected {
            WObject { vel: push_vel(o.pos, o.vel, x, y, dr, k), ..*o }
        } else {
            *o
        }
    });
}

/// Pushes every live non-weapon object whose type is affected by explosions
/// away from the blast of `ty` at `(x, y)`, with a third of the type's push
/// factor.
pub fn blow_away_nobjects(nobjects: &mut Pool<NObject>, types: &[NObjectType], ty: &SObjectType, x: i32, y: i32)
    requires
        old(nobjects).wf(),
        nobjects_typed(old(nobjects)@, types@.len() as int),
        span_fits(x, ty.detect_range as int),
        span_fits(y, ty.detect_range as int),
    ensures
        final(nobjects).wf(),
        final(nobjects)@.len() == old(nobjects)@.len(),
        forall|i: int| 0 <= i < old(nobjects)@.len() ==> #[trigger] final(nobjects)@[i] == match old(nobjects)@[i] {
            Some(o) => Some(blown_nobject(types@, o, x, y, ty.detect_range, trunc_div(ty.blow_away as int, 3) as i32)),
            None => None,
        },
{
    let k = ty.blow_away / 3;
    let dr = ty.detect_range;
    nobjects.iter_mut(|o: &NObject| -> (r: NObject)
        requires
            span_fits(x, dr as int),
            span_fits(y, dr as int),
        ensures
            r == blown_nobject(types@, *o, x, y, dr, k),
    {
        let affected = match o.ty {
            Some(t) => 0 <= t && (t as usize) < types.len() && types[t as usize].affect_by_explosions,
            None => false,
        };
        if affected {
            NObject { vel: push_vel(o.pos, o.vel, x, y, dr, k), ..*o }
        } else {
            *o
        }
    });
}

// ---------------------------------------------------------------------------
// Dirt throw
// ---------------------------------------------------------------------------

/// The dirt-throw box of a blast of half-width `dr` at `(x, y)`:
/// `[x - dr/2, x + dr/2 + 1) x [y - dr/2, y + dr/2 + 1)` clipped to the level,
/// as `(x1, y1, x2, y2)`.
pub open spec fn throw_box(level: LevelSim, x: i32, y: i32, dr: i32) -> (int, int, int, int) {
    let kw = trunc_div(dr as int, 2);
    (
        if x - kw < 0 { 0 } else { x - kw },
        if y - kw < 0 { 0 } else { y - kw },
        if x + kw + 1 < level.width { x + kw + 1 } else { level.width as int },
        if y + kw + 1 < level.height { y + kw + 1 } else { level.height as int },
    )
}

/// A dirt cell: its pixel and its material before the crater.
pub type DirtCell = (i32, i32, i32);

/// The dirt cells of row `y` in `[x1, x2)`, left to right.
pub open spec fn row_dirt(level: LevelSim, y: int, x1: int, x2: int) -> Seq<DirtCell>
    decreases x2 - x1,
{
    if x2 <= x1 {
        Seq::empty()
    } else {
        let rest = row_dirt(level, y, x1, x2 - 1);
        if has_flag(level.flags_xy(x2 - 1, y), MAT_DIRT | MAT_DIRT2) {
            rest.push(((x2 - 1) as i32, y as i32, level.material_id@[level.cell(x2 - 1, y)] as i32))
        } else {
            rest
        }
    }
}

/// The dirt cells of `[x1, x2) x [y1, y2)`, row by row.
pub open spec fn box_dirt(level: LevelSim, x1: int, y1: int, x2: int, y2: int) -> Seq<DirtCell>
    decreases y2 - y1,
{
    if y2 <= y1 {
        Seq::empty()
    } else {
        box_dirt(level, x1, y1, x2, y2 - 1) + row_dirt(level, y2 - 1, x1, x2)
    }
}

/// The dirt cells of the throw box of a blast of half-width `dr` at `(x, y)`,
/// row by row (top to bottom, each left to right), each with its material.
/// Each of these cells draws once to decide whether it is thrown.
pub fn dirt_throw_cells(level: &LevelSim, x: i32, y: i32, dr: i32) -> (r: Vec<DirtCell>)
    requires
        level.wf(),
        span_fits(x, trunc_div(dr as int, 2)),
        span_fits(y, trunc_div(dr as int, 2)),
        x + trunc_div(dr as int, 2) + 1 <= i32::MAX,
        y + trunc_div(dr as int, 2) + 1 <= i32::MAX,
    ensures
        ({
            let (x1, y1, x2, y2) = throw_box(*level, x, y, dr);
            r@ == box_dirt(*level, x1, y1, x2, y2)
        }),
{
    let kw = dr / 2;
    let x1 = if x - kw < 0 { 0 } else { x - kw };
    let y1 = if y - kw < 0 { 0 } else { y - kw };
    let x2 = if x + kw + 1 < level.width { x + kw + 1 } else { level.width };
    let y2 = if y + kw + 1 < level.height { y + kw + 1 } else { level.height };
    assert(throw_box(*level, x, y, dr) == (x1 as int, y1 as int, x2 as int, y2 as int));
    let mut out: Vec<DirtCell> = Vec::new();
    let mut yy = y1;
    while yy < y2
        invariant
            level.wf(),
            0 <= x1,
            0 <= y1 <= yy,
            y1 <= y2 ==> yy <= y2,
            y1 > y2 ==> yy == y1,
            x2 <= level.width,
            y2 <= level.height,
            out@ == box_dirt(*level, x1 as int, y1 as int, x2 as int, yy as int),
        decreases y2 - yy,
    {
        let ghost pre = out@;
        let mut xx = x1;
        while xx < x2
            invariant
                level.wf(),
                0 <= x1 <= xx,
                x1 <= x2 ==> xx <= x2,
                x1 > x2 ==> xx == x1,
                0 <= y1 <= yy < y2,
                x2 <= level.width,
                y2 <= level.height,
                pre == box_dirt(*level, x1 as int, y1 as int, x2 as int, yy as int),
                out@ == pre + row_dirt(*level, yy as int, x1 as int, xx as int),
            decreases x2 - xx,
        {
            if level.any_dirt(xx, yy) {
                let kpix = level.pixel(xx, yy);
                out.push((xx, yy, kpix));
            }
            assert(out@ =~= pre + row_dirt(*level, yy as int, x1 as int, xx + 1));
            xx += 1;
        }
        assert(row_dirt(*level, yy as int, x1 as int, xx as int) == row_dirt(*level, yy as int, x1 as int, x2 as int));
        assert(box_dirt(*level, x1 as int, y1 as int, x2 as int, yy + 1)
            == box_dirt(*level, x1 as int, y1 as int, x2 as int, yy as int) + row_dirt(*level, yy as int, x1 as int, x2 as int));
        yy += 1;
    }
    assert(box_dirt(*level, x1 as int, y1 as int, x2 as int, yy as int) == box_dirt(*level, x1 as int, y1 as int, x2 as int, y2 as int));
    out
}

// ---------------------------------------------------------------------------
// The whole explosion
// ---------------------------------------------------------------------------

/// `k` blood particles of type `ty` sprayed from `pos` with velocity `vel`:
/// each reads its angle below 128, then its spawn draws, and spawns with
/// colour 0 for `owner`. The particles are spawned in order; the result is the
/// pool and the tape afterwards.
pub open spec fn blood_spray(
    s: Seq<Option<NObject>>,
    t: DrawTape,
    k: nat,
    ty: NObjectType,
    vel: Vec2,
    pos: Vec2,
    owner: i32,
    cossin: Seq<Vec2>,
) -> (Seq<Option<NObject>>, DrawTape)
    decreases k,
{
    if k == 0 {
        (s, t)
    } else {
        let (s1, t1) = blood_spray(s, t, (k - 1) as nat, ty, vel, pos, owner, cossin);
        let (angle, t2) = tape_bound(t1, 128);
        let (d, t3) = read_spawn2(ty, t2);
        (reused(s1, new_nobject2(ty, angle as int, vel, pos, 0, owner, cossin, d)), t3)
    }
}

/// One worm's share of a blast of `ty` at `(x, y)` from `owner_idx`: a worm
/// outside the box is untouched; a worm inside is [`blasted_worm`]; a living
/// one also sprays `blood * power_sum / 100` particles of `blood_ty` from its
/// position at a third of its new velocity. A living worm's hit sound then
/// takes one draw below three, and a second one after a first of zero.
pub open spec fn worm_hit(
    w: WormState,
    s: Seq<Option<NObject>>,
    t: DrawTape,
    ty: SObjectType,
    x: i32,
    y: i32,
    owner_idx: i32,
    blood: i32,
    blood_ty: NObjectType,
    cossin: Seq<Vec2>,
) -> (WormState, Seq<Option<NObject>>, DrawTape) {
    let (px, py) = worm_pixel(w);
    if !in_blast(px, py, x as int, y as int, ty.detect_range as int) {
        (w, s, t)
    } else {
        let w1 = blasted_worm(w, ty, x, y, owner_idx);
        if w.health > 0 {
            let k = trunc_div(blood * worm_power_sum(w, x, y, ty.detect_range), 100) as i32;
            let (s1, t1) = if k > 0 {
                blood_spray(s, t, k as nat, blood_ty, vec_div(w1.vel, 3), w1.pos, w1.index, cossin)
            } else {
                (s, t)
            };
            let (gate, t2) = tape_bound(t1, 3);
            let t3 = if gate == 0 { tape_bound(t2, 3).1 } else { t2 };
            (w1, s1, t3)
        } else {
            (w1, s, t)
        }
    }
}

/// The blast on the first `i` worms of `ws`, in order ([`worm_hit`]).
pub open spec fn worms_hit(
    ws: Seq<WormState>,
    s: Seq<Option<NObject>>,
    t: DrawTape,
    ty: SObjectType,
    x: i32,
    y: i32,
    owner_idx: i32,
    blood: i32,
    blood_ty: NObjectType,
    cossin: Seq<Vec2>,
    i: nat,
) -> (Seq<WormState>, Seq<Option<NObject>>, DrawTape)
    decreases i,
{
    if i == 0 {
        (ws, s, t)
    } else {
        let (ws1, s1, t1) = worms_hit(ws, s, t, ty, x, y, owner_idx, blood, blood_ty, cossin, (i - 1) as nat);
        let (w, s2, t2) = worm_hit(ws[i - 1], s1, t1, ty, x, y, owner_idx, blood, blood_ty, cossin);
        (ws1.update(i - 1, w), s2, t2)
    }
}

/// The blast on the first `i` worms keeps the length and leaves the worms
/// from `i` on as they were.
pub proof fn lemma_worms_hit_frame(
    ws: Seq<WormState>,
    s: Seq<Option<NObject>>,
    t: DrawTape,
    ty: SObjectType,
    x: i32,
    y: i32,
    owner_idx: i32,
    blood: i32,
    blood_ty: NObjectType,
    cossin: Seq<Vec2>,
    i: nat,
)
    requires
        i <= ws.len(),
    ensures
        worms_hit(ws, s, t, ty, x, y, owner_idx, blood, blood_ty, cossin, i).0.len() == ws.len(),
        forall|j: int| i <= j < ws.len() ==>
            #[trigger] worms_hit(ws, s, t, ty, x, y, owner_idx, blood, blood_ty, cossin, i).0[j] == ws[j],
    decreases i,
{
    if i > 0 {
        lemma_worms_hit_frame(ws, s, t, ty, x, y, owner_idx, blood, blood_ty, cossin, (i - 1) as nat);
    }
}

/// The pool of non-weapon objects after the push of a blast ([`blown_nobject`]).
pub open spec fn blown_nobjects(types: Seq<NObjectType>, s: Seq<Option<NObject>>, x: i32, y: i32, dr: i32, k: i32) -> Seq<Option<NObject>> {
    Seq::new(s.len(), |i: int| match s[i] {
        Some(o) => Some(blown_nobject(types, o, x, y, dr, k)),
        None => None,
    })
}

/// The pool of projectiles after the push of a blast ([`blown_wobject`]).
pub open spec fn blown_wobjects(weapons: Seq<Weapon>, s: Seq<Option<WObject>>, x: i32, y: i32, dr: i32, k: i32) -> Seq<Option<WObject>> {
    Seq::new(s.len(), |i: int| match s[i] {
        Some(o) => Some(blown_wobject(weapons, o, x, y, dr, k)),
        None => None,
    })
}

/// `b` holds the projectiles of `a`, slot for slot, with at most their
/// velocities changed.
pub open spec fn velocities_only(a: Seq<Option<WObject>>, b: Seq<Option<WObject>>) -> bool {
    &&& b.len() == a.len()
    &&& forall|j: int| 0 <= j < a.len() ==> (#[trigger] b[j] is Some) == (a[j] is Some)
    &&& forall|j: int| 0 <= j < a.len() && #[trigger] a[j] is Some ==>
        b[j]->0 == (WObject { vel: b[j]->0.vel, ..a[j]->0 })
}

/// The dirt throw over `cells`, in order: each cell draws below 8, and on a 0
/// reads an angle below 128 and its spawn draws and spawns a particle of `ty`
/// at rest at the cell, coloured with the cell's material, for `owner_idx`.
pub open spec fn dirt_thrown(
    cells: Seq<DirtCell>,
    s: Seq<Option<NObject>>,
    t: DrawTape,
    ty: NObjectType,
    owner_idx: i32,
    cossin: Seq<Vec2>,
) -> (Seq<Option<NObject>>, DrawTape)
    decreases cells.len(),
{
    if cells.len() == 0 {
        (s, t)
    } else {
        let (s1, t1) = dirt_thrown(cells.drop_last(), s, t, ty, owner_idx, cossin);
        let c = cells.last();
        let (pick, t2) = tape_bound(t1, 8);
        if pick == 0 {
            let (angle, t3) = tape_bound(t2, 128);
            let (d, t4) = read_spawn2(ty, t3);
            let pos = Vec2 { x: (c.0 * 65536) as i32, y: (c.1 * 65536) as i32 };
            (reused(s1, new_nobject2(ty, angle as int, Vec2 { x: 0, y: 0 }, pos, c.2, owner_idx, cossin, d)), t4)
        } else {
            (s1, t2)
        }
    }
}

/// Every dirt cell of a box inside the level lies inside the level.
pub proof fn lemma_box_dirt_inside(level: LevelSim, x1: int, y1: int, x2: int, y2: int)
    requires
        0 <= x1,
        0 <= y1,
        x2 <= level.width,
        y2 <= level.height,
    ensures
        forall|k: int| 0 <= k < box_dirt(level, x1, y1, x2, y2).len() ==> {
            let c = #[trigger] box_dirt(level, x1, y1, x2, y2)[k];
            0 <= c.0 < level.width && 0 <= c.1 < level.height
        },
    decreases y2 - y1,
{
    if y2 > y1 {
        lemma_box_dirt_inside(level, x1, y1, x2, y2 - 1);
        lemma_row_dirt_inside(level, y2 - 1, x1, x2);
        let a = box_dirt(level, x1, y1, x2, y2 - 1);
        let b = row_dirt(level, y2 - 1, x1, x2);
        assert forall|k: int| 0 <= k < (a + b).len() implies {
            let c = #[trigger] (a + b)[k];
            0 <= c.0 < level.width && 0 <= c.1 < level.height
        } by {
            if k >= a.len() {
                assert((a + b)[k] == b[k - a.len()]);
            }
        }
    }
}

/// Every dirt cell of a row segment inside the level lies inside the level.
pub proof fn lemma_row_dirt_inside(level: LevelSim, y: int, x1: int, x2: int)
    requires
        0 <= x1,
        0 <= y < level.height,
        x2 <= level.width,
    ensures
        forall|k: int| 0 <= k < row_dirt(level, y, x1, x2).len() ==> {
            let c = #[trigger] row_dirt(level, y, x1, x2)[k];
            0 <= c.0 < level.width && c.1 == y
        },
    decreases x2 - x1,
{
    if x2 > x1 {
        lemma_row_dirt_inside(level, y, x1, x2 - 1);
        let rest = row_dirt(level, y, x1, x2 - 1);
        let all = row_dirt(level, y, x1, x2);
        assert forall|k: int| 0 <= k < all.len() implies {
            let c = #[trigger] all[k];
            0 <= c.0 < level.width && c.1 == y
        } by {
            if k < rest.len() {
                assert(all[k] == rest[k]);
            }
        }
    }
}

/// The state an explosion leaves behind, apart from the level: the worms,
/// the projectiles, the non-weapon objects and the tape after the crater's
/// fill draw is read, plus that draw.
pub struct Blast {
    pub worms: Seq<WormState>,
    pub wobjects: Seq<Option<WObject>>,
    pub nobjects: Seq<Option<NObject>>,
    pub fill: u32,
    pub tape: DrawTape,
}

/// An explosion of `ty` at `(x, y)` from `owner_idx`, reading `t`:
/// 1. the sound draw below `num_sounds` (iff `start_sound >= 0`);
/// 2. iff `damage > 0`: the blast on every worm in order ([`worms_hit`]), the
///    push on the projectiles and then on the non-weapon objects (new blood
///    included), with a third of the push factor, and the dirt throw over the
///    dirt cells of the throw box, read before the crater ([`dirt_thrown`]);
/// 3. iff `dirt_effect >= 0`: the crater's fill draw below its `rframe`.
pub open spec fn blast(
    ty: SObjectType,
    x: i32,
    y: i32,
    owner_idx: i32,
    worms: Seq<WormState>,
    wobjects: Seq<Option<WObject>>,
    weapons: Seq<Weapon>,
    nobjects: Seq<Option<NObject>>,
    types: Seq<NObjectType>,
    level: LevelSim,
    cossin: Seq<Vec2>,
    textures: Seq<Texture>,
    blood: i32,
    t: DrawTape,
) -> Blast {
    let t0 = if ty.start_sound >= 0 { tape_bound(t, ty.num_sounds as u32).1 } else { t };
    let dr = ty.detect_range;
    let k = trunc_div(ty.blow_away as int, 3) as i32;
    let (ws, wo, no, t1) = if ty.damage > 0 {
        let (ws, n1, ta) = worms_hit(worms, nobjects, t0, ty, x, y, owner_idx, blood, types[6], cossin, worms.len());
        let n2 = blown_nobjects(types, n1, x, y, dr, k);
        let (bx1, by1, bx2, by2) = throw_box(level, x, y, dr);
        let (n3, tb) = dirt_thrown(box_dirt(level, bx1, by1, bx2, by2), n2, ta, types[2], owner_idx, cossin);
        (ws, blown_wobjects(weapons, wobjects, x, y, dr, k), n3, tb)
    } else {
        (worms, wobjects, nobjects, t0)
    };
    let (fill, t2) = if ty.dirt_effect >= 0 {
        tape_bound(t1, textures[ty.dirt_effect as int].rframe as u32)
    } else {
        (0u32, t1)
    };
    Blast { worms: ws, wobjects: wo, nobjects: no, fill, tape: t2 }
}

/// What an explosion needs of its inputs: the pools and tables are well
/// formed, the box edges, the worm damage and blood, the spawn types and the
/// fixed-point debris positions fit `i32`, and the crater's frames exist.
pub open spec fn blast_ok(
    ty: SObjectType,
    x: i32,
    y: i32,
    worms: Seq<WormState>,
    wobjects: Pool<WObject>,
    weapons: Seq<Weapon>,
    nobjects: Pool<NObject>,
    types: Seq<NObjectType>,
    level: LevelSim,
    large_sprites: SpriteSet,
    textures: Seq<Texture>,
    blood: i32,
) -> bool {
    let dr = ty.detect_range as int;
    &&& level.wf()
    &&& x >= i32::MIN + 8
    &&& y >= i32::MIN + 8
    &&& ty.damage > 0 ==> {
        &&& span_fits(x, dr)
        &&& span_fits(y, dr)
        &&& x + trunc_div(dr, 2) + 1 <= i32::MAX
        &&& y + trunc_div(dr, 2) + 1 <= i32::MAX
        &&& forall|i: int| 0 <= i < worms.len() ==> blast_fits(#[trigger] worms[i], ty, x, y, blood)
        &&& wobjects.wf()
        &&& wobjects_typed(wobjects@, weapons.len() as int)
        &&& nobjects.wf()
        &&& nobjects@.len() > 0
        &&& nobjects_typed(nobjects@, types.len() as int)
        &&& types.len() > 6
        &&& spawn2_type_ok(types[2])
        &&& spawn2_type_ok(types[6])
        &&& 0 <= types[2].id < types.len()
        &&& 0 <= types[6].id < types.len()
        &&& level.width <= 32768
        &&& level.height <= 32768
    }
    &&& ty.dirt_effect >= 0 ==> {
        &&& crater_ok(large_sprites, textures, ty.dirt_effect)
        &&& x + 9 <= i32::MAX
        &&& y + 9 <= i32::MAX
    }
}

/// [`blast_ok`] depends on the worms only through their positions, and on the
/// pools and the level only through their shape.
pub proof fn lemma_blast_ok_frame(
    st: SObjectType,
    x: i32,
    y: i32,
    worms0: Seq<WormState>,
    worms1: Seq<WormState>,
    wo0: Pool<WObject>,
    wo1: Pool<WObject>,
    weapons: Seq<Weapon>,
    no0: Pool<NObject>,
    no1: Pool<NObject>,
    types: Seq<NObjectType>,
    lv0: LevelSim,
    lv1: LevelSim,
    sp: SpriteSet,
    textures: Seq<Texture>,
    blood: i32,
)
    requires
        blast_ok(st, x, y, worms0, wo0, weapons, no0, types, lv0, sp, textures, blood),
        worms1.len() == worms0.len(),
        forall|i: int| 0 <= i < worms0.len() ==> (#[trigger] worms1[i]).pos == worms0[i].pos,
        wo1.wf(),
        wobjects_typed(wo1@, weapons.len() as int),
        no1.wf(),
        no1@.len() == no0@.len(),
        nobjects_typed(no1@, types.len() as int),
        lv1.wf(),
        lv1.width == lv0.width,
        lv1.height == lv0.height,
    ensures
        blast_ok(st, x, y, worms1, wo1, weapons, no1, types, lv1, sp, textures, blood),
{
    if st.damage > 0 {
        assert forall|i: int| 0 <= i < worms1.len() implies blast_fits(#[trigger] worms1[i], st, x, y, blood) by {
            assert(blast_fits(worms0[i], st, x, y, blood));
        }
    }
}

/// Keeps every live non-weapon object typed after a reusing spawn of a typed object.
proof fn lemma_reused_typed(s: Seq<Option<NObject>>, o: NObject, n: int)
    requires
        nobjects_typed(s, n),
        o.ty is Some,
        0 <= o.ty->0 < n,
        0 <= reuse_slot(s) < s.len(),
    ensures
        nobjects_typed(reused(s, o), n),
{
    let r = reused(s, o);
    assert forall|j: int| 0 <= j < r.len() && #[trigger] r[j] is Some implies
        r[j]->0.ty is Some && 0 <= r[j]->0.ty->0 < n by {
        if j != reuse_slot(s) {
            assert(r[j] == s[j]);
        }
    }
}

/// Sprays `k` blood particles of `blood_ty` ([`blood_spray`]).
fn spray_blood(
    k: i32,
    blood_ty: &NObjectType,
    vel: Vec2,
    pos: Vec2,
    owner: i32,
    cossin: &[Vec2; 128],
    nobject_types: &[NObjectType],
    nobjects: &mut Pool<NObject>,
    draws: &mut Draws,
)
    requires
        old(nobjects).wf(),
        old(nobjects)@.len() > 0,
        nobjects_typed(old(nobjects)@, nobject_types@.len() as int),
        spawn2_type_ok(*blood_ty),
        0 <= blood_ty.id < nobject_types@.len(),
        old(draws).wf(),
    ensures
        final(nobjects).wf(),
        final(nobjects)@.len() == old(nobjects)@.len(),
        nobjects_typed(final(nobjects)@, nobject_types@.len() as int),
        final(draws).wf(),
        (final(nobjects)@, final(draws)@) == if k > 0 {
            blood_spray(old(nobjects)@, old(draws)@, k as nat, *blood_ty, vel, pos, owner, cossin@)
        } else {
            (old(nobjects)@, old(draws)@)
        },
{
    let ghost s1 = nobjects@;
    let ghost t1 = draws@;
    let mut b: i32 = 0;
    while b < k
        invariant
            0 <= b,
            k > 0 ==> b <= k,
            k <= 0 ==> b == 0,
            nobjects.wf(),
            nobjects@.len() == s1.len(),
            s1.len() > 0,
            nobjects_typed(nobjects@, nobject_types@.len() as int),
            spawn2_type_ok(*blood_ty),
            0 <= blood_ty.id < nobject_types@.len(),
            draws.wf(),
            (nobjects@, draws@) == blood_spray(s1, t1, b as nat, *blood_ty, vel, pos, owner, cossin@),
        decreases k - b,
    {
        let ghost sb = nobjects@;
        let angle = draws.bound(128);
        let ghost ta = draws@;
        proof {
            lemma_read_spawn2_fits(*blood_ty, ta);
        }
        let d = draw_spawn2(blood_ty, draws);
        nobject_create2(blood_ty, angle as i32, vel, pos, 0, owner, cossin, &d, nobjects);
        proof {
            let o = new_nobject2(*blood_ty, angle as int, vel, pos, 0, owner, cossin@, d);
            lemma_reused_typed(sb, o, nobject_types@.len() as int);
        }
        b += 1;
    }
}

/// The blast on every worm in order ([`worms_hit`]).
fn blast_worms(
    ty: &SObjectType,
    x: i32,
    y: i32,
    owner_idx: i32,
    worms: &mut Vec<WormState>,
    nobjects: &mut Pool<NObject>,
    nobject_types: &[NObjectType],
    cossin: &[Vec2; 128],
    blood: i32,
    draws: &mut Draws,
)
    requires
        forall|j: int| 0 <= j < old(worms)@.len() ==> blast_fits(#[trigger] old(worms)@[j], *ty, x, y, blood),
        old(nobjects).wf(),
        old(nobjects)@.len() > 0,
        nobjects_typed(old(nobjects)@, nobject_types@.len() as int),
        nobject_types@.len() > 6,
        spawn2_type_ok(nobject_types@[6]),
        0 <= nobject_types@[6].id < nobject_types@.len(),
        old(draws).wf(),
    ensures
        final(nobjects).wf(),
        final(nobjects)@.len() == old(nobjects)@.len(),
        nobjects_typed(final(nobjects)@, nobject_types@.len() as int),
        final(draws).wf(),
        final(worms)@.len() == old(worms)@.len(),
        forall|j: int| 0 <= j < old(worms)@.len() ==> #[trigger] final(worms)@[j] == (WormState {
            vel: final(worms)@[j].vel,
            health: final(worms)@[j].health,
            last_killed_by_idx: final(worms)@[j].last_killed_by_idx,
            ..old(worms)@[j]
        }),
        (final(worms)@, final(nobjects)@, final(draws)@) == worms_hit(old(worms)@, old(nobjects)@, old(draws)@,
            *ty, x, y, owner_idx, blood, nobject_types@[6], cossin@, old(worms)@.len() as nat),
{
    let ghost w0 = worms@;
    let ghost n0 = nobjects@;
    let ghost t0 = draws@;
    let blood_ty = &nobject_types[6];
    let mut i: usize = 0;
    while i < worms.len()
        invariant
            i <= worms@.len(),
            w0.len() == worms@.len(),
            forall|j: int| 0 <= j < w0.len() ==> blast_fits(#[trigger] w0[j], *ty, x, y, blood),
            nobjects.wf(),
            nobjects@.len() == n0.len(),
            n0.len() > 0,
            nobjects_typed(nobjects@, nobject_types@.len() as int),
            *blood_ty == nobject_types@[6],
            spawn2_type_ok(*blood_ty),
            0 <= blood_ty.id < nobject_types@.len(),
            draws.wf(),
            forall|j: int| 0 <= j < w0.len() ==> #[trigger] worms@[j] == (WormState {
                vel: worms@[j].vel,
                health: worms@[j].health,
                last_killed_by_idx: worms@[j].last_killed_by_idx,
                ..w0[j]
            }),
            (worms@, nobjects@, draws@)
                == worms_hit(w0, n0, t0, *ty, x, y, owner_idx, blood, *blood_ty, cossin@, i as nat),
        decreases w0.len() - i,
    {
        proof {
            lemma_worms_hit_frame(w0, n0, t0, *ty, x, y, owner_idx, blood, *blood_ty, cossin@, i as nat);
        }
        let ghost ws1 = worms@;
        let mut w = worms[i];
        assert(w == w0[i as int]);
        let hit = worm_blast(&mut w, ty, x, y, owner_idx, blood);
        worms.set(i, w);
        match hit {
            Some(k) => {
                spray_blood(k, blood_ty, w.vel.div(3), w.pos, w.index, cossin, nobject_types, nobjects, draws);
                let gate = draws.bound(3);
                if gate == 0 {
                    draws.bound(3);
                }
            },
            None => {},
        }
        proof {
            assert(worms@ == ws1.update(i as int, w));
        }
        i += 1;
    }
    proof {
        lemma_worms_hit_frame(w0, n0, t0, *ty, x, y, owner_idx, blood, *blood_ty, cossin@, i as nat);
    }
}

/// The dirt throw of a blast of half-width `dr` at `(x, y)` over the level's
/// dirt cells in the throw box ([`dirt_thrown`]).
fn throw_dirt(
    level: &LevelSim,
    x: i32,
    y: i32,
    dr: i32,
    owner_idx: i32,
    nobjects: &mut Pool<NObject>,
    nobject_types: &[NObjectType],
    cossin: &[Vec2; 128],
    draws: &mut Draws,
)
    requires
        level.wf(),
        level.width <= 32768,
        level.height <= 32768,
        span_fits(x, trunc_div(dr as int, 2)),
        span_fits(y, trunc_div(dr as int, 2)),
        x + trunc_div(dr as int, 2) + 1 <= i32::MAX,
        y + trunc_div(dr as int, 2) + 1 <= i32::MAX,
        old(nobjects).wf(),
        old(nobjects)@.len() > 0,
        nobjects_typed(old(nobjects)@, nobject_types@.len() as int),
        nobject_types@.len() > 2,
        spawn2_type_ok(nobject_types@[2]),
        0 <= nobject_types@[2].id < nobject_types@.len(),
        old(draws).wf(),
    ensures
        final(nobjects).wf(),
        final(nobjects)@.len() == old(nobjects)@.len(),
        nobjects_typed(final(nobjects)@, nobject_types@.len() as int),
        final(draws).wf(),
        ({
            let (bx1, by1, bx2, by2) = throw_box(*level, x, y, dr);
            (final(nobjects)@, final(draws)@) == dirt_thrown(box_dirt(*level, bx1, by1, bx2, by2),
                old(nobjects)@, old(draws)@, nobject_types@[2], owner_idx, cossin@)
        }),
{
    let ghost n2 = nobjects@;
    let ghost ta = draws@;
    let cells = dirt_throw_cells(level, x, y, dr);
    let ghost bx = throw_box(*level, x, y, dr);
    proof {
        lemma_box_dirt_inside(*level, bx.0, bx.1, bx.2, bx.3);
    }
    let dirt_ty = &nobject_types[2];
    let mut j: usize = 0;
    while j < cells.len()
        invariant
            j <= cells@.len(),
            cells@ == box_dirt(*level, bx.0, bx.1, bx.2, bx.3),
            forall|k: int| 0 <= k < cells@.len() ==> {
                let c = #[trigger] cells@[k];
                0 <= c.0 < level.width && 0 <= c.1 < level.height
            },
            level.width <= 32768,
            level.height <= 32768,
            nobjects.wf(),
            nobjects@.len() == n2.len(),
            n2.len() > 0,
            nobjects_typed(nobjects@, nobject_types@.len() as int),
            0 <= dirt_ty.id < nobject_types@.len(),
            *dirt_ty == nobject_types@[2],
            spawn2_type_ok(*dirt_ty),
            draws.wf(),
            (nobjects@, draws@) == dirt_thrown(cells@.take(j as int), n2, ta, *dirt_ty, owner_idx, cossin@),
        decreases cells@.len() - j,
    {
        let ghost sb = nobjects@;
        let c = cells[j];
        assert(cells@.take(j + 1).drop_last() =~= cells@.take(j as int));
        assert(cells@.take(j + 1).last() == c);
        let pick = draws.bound(8);
        if pick == 0 {
            let angle = draws.bound(128);
            let ghost tc = draws@;
            proof {
                lemma_read_spawn2_fits(*dirt_ty, tc);
            }
            let d = draw_spawn2(dirt_ty, draws);
            let pos = Vec2 { x: itof(c.0), y: itof(c.1) };
            nobject_create2(dirt_ty, angle as i32, Vec2 { x: 0, y: 0 }, pos, c.2, owner_idx, cossin, &d, nobjects);
            proof {
                let o = new_nobject2(*dirt_ty, angle as int, Vec2 { x: 0, y: 0 }, pos, c.2, owner_idx, cossin@, d);
                lemma_reused_typed(sb, o, nobject_types@.len() as int);
            }
        }
        j += 1;
    }
    assert(cells@.take(j as int) =~= cells@);
}

/// An explosion of type `ty` centred at pixel `(x, y)`, caused by worm
/// `owner_idx`: spawns its object into the lowest free slot, then makes the
/// draws and changes of [`blast`], and finally stamps the crater (iff
/// `dirt_effect >= 0`) with its window at `(x - 7, y - 7)` and the fill frame
/// `sframe + fill`, over the level as it was before the crater.
pub fn sobject_create(
    ty: &SObjectType,
    x: i32,
    y: i32,
    owner_idx: i32,
    worms: &mut Vec<WormState>,
    wobjects: &mut Pool<WObject>,
    weapons: &[Weapon],
    nobjects: &mut Pool<NObject>,
    nobject_types: &[NObjectType],
    level: &mut LevelSim,
    cossin: &[Vec2; 128],
    large_sprites: &SpriteSet,
    textures: &[Texture],
    sobjects: &mut Pool<SObject>,
    blood: i32,
    draws: &mut Draws,
)
    requires
        old(sobjects).wf(),
        exists|i: int| 0 <= i < old(sobjects)@.len() && #[trigger] old(sobjects)@[i] is None,
        old(draws).wf(),
        blast_ok(*ty, x, y, old(worms)@, *old(wobjects), weapons@, *old(nobjects), nobject_types@,
            *old(level), *large_sprites, textures@, blood),
    ensures
        final(sobjects).wf(),
        exists|i: int| is_lowest_free(old(sobjects)@, i)
            && final(sobjects)@ == old(sobjects)@.update(i, Some(new_sobject(*ty, x, y))),
        final(draws).wf(),
        ({
            let b = blast(*ty, x, y, owner_idx, old(worms)@, old(wobjects)@, weapons@, old(nobjects)@,
                nobject_types@, *old(level), cossin@, textures@, blood, old(draws)@);
            &&& final(worms)@ == b.worms
            &&& final(wobjects)@ == b.wobjects
            &&& final(nobjects)@ == b.nobjects
            &&& final(draws)@ == b.tape
            &&& old(wobjects).wf() ==> final(wobjects).wf()
            &&& old(nobjects).wf() ==> final(nobjects).wf()
            &&& final(wobjects)@.len() == old(wobjects)@.len()
            &&& velocities_only(old(wobjects)@, final(wobjects)@)
            &&& final(nobjects)@.len() == old(nobjects)@.len()
            &&& wobjects_typed(old(wobjects)@, weapons@.len() as int) ==> wobjects_typed(final(wobjects)@, weapons@.len() as int)
            &&& nobjects_typed(old(nobjects)@, nobject_types@.len() as int) ==> nobjects_typed(final(nobjects)@, nobject_types@.len() as int)
            &&& final(worms)@.len() == old(worms)@.len()
            &&& forall|i: int| 0 <= i < old(worms)@.len() ==> #[trigger] final(worms)@[i] == (WormState {
                vel: final(worms)@[i].vel,
                health: final(worms)@[i].health,
                last_killed_by_idx: final(worms)@[i].last_killed_by_idx,
                ..old(worms)@[i]
            })
            &&& cratered(*old(level), *final(level), *large_sprites, textures@[ty.dirt_effect as int],
                textures@[ty.dirt_effect as int].sframe + b.fill, x - 7, y - 7, ty.dirt_effect >= 0)
        }),
{
    sobject_spawn(sobjects, ty, x, y);
    if ty.start_sound >= 0 {
        draws.bound(ty.num_sounds as u32);
    }
    let dr = ty.detect_range;
    if ty.damage > 0 {
        blast_worms(ty, x, y, owner_idx, worms, nobjects, nobject_types, cossin, blood, draws);
        blow_away_wobjects(wobjects, weapons, ty, x, y);
        let ghost n1 = nobjects@;
        blow_away_nobjects(nobjects, nobject_types, ty, x, y);
        assert(nobjects@ =~= blown_nobjects(nobject_types@, n1, x, y, dr, trunc_div(ty.blow_away as int, 3) as i32));
        assert(nobjects_typed(nobjects@, nobject_types@.len() as int)) by {
            assert forall|q: int| 0 <= q < nobjects@.len() && #[trigger] nobjects@[q] is Some implies
                nobjects@[q]->0.ty is Some && 0 <= nobjects@[q]->0.ty->0 < nobject_types@.len() by {
                assert(n1[q] is Some);
            }
        }
        throw_dirt(level, x, y, dr, owner_idx, nobjects, nobject_types, cossin, draws);
        assert(wobjects_typed(wobjects@, weapons@.len() as int)) by {
            assert forall|q: int| 0 <= q < wobjects@.len() && #[trigger] wobjects@[q] is Some implies
                wobjects@[q]->0.ty is Some && 0 <= wobjects@[q]->0.ty->0 < weapons@.len() by {
                assert(old(wobjects)@[q] is Some);
            }
        }
        assert(wobjects@ =~= blown_wobjects(weapons@, old(wobjects)@, x, y, dr, trunc_div(ty.blow_away as int, 3) as i32));
        assert(velocities_only(old(wobjects)@, wobjects@)) by {
            assert forall|j: int| 0 <= j < old(wobjects)@.len() && #[trigger] old(wobjects)@[j] is Some implies
                wobjects@[j]->0 == (WObject { vel: wobjects@[j]->0.vel, ..old(wobjects)@[j]->0 }) by {
                assert(wobjects@[j] == blown_wobjects(weapons@, old(wobjects)@, x, y, dr,
                    trunc_div(ty.blow_away as int, 3) as i32)[j]);
            }
        }
    }
    if ty.dirt_effect >= 0 {
        let tex = &textures[ty.dirt_effect as usize];
        let ghost tf = draws@;
        let fill = draws.bound(tex.rframe as u32);
        proof {
            lemma_tape_bound_below(tf, tex.rframe as u32);
        }
        draw_dirt_effect(level, large_sprites, textures, ty.dirt_effect, x - 7, y - 7, fill);
    }
}

/// A live explosion object can take a tick: its type exists, and its delay
/// and frame counters do not overflow.
pub open spec fn sobject_tick_ok(o: SObject, types: Seq<SObjectType>) -> bool {
    &&& 0 <= o.id < types.len()
    &&& o.anim_delay > i32::MIN
    &&& o.anim_delay - 1 <= 0 ==> o.cur_frame < i32::MAX
}

/// The explosion-object pool after one tick: every live object is
/// [`processed_sobject`] with its type; one that ends is freed.
pub open spec fn ticked_sobjects(s: Seq<Option<SObject>>, types: Seq<SObjectType>) -> Seq<Option<SObject>> {
    Seq::new(s.len(), |i: int| match s[i] {
        Some(o) => {
            let (p, out) = processed_sobject(o, types[o.id as int]);
            if out == SObjectOutcome::Free { None } else { Some(p) }
        },
        None => None,
    })
}

/// One animation tick of every explosion object, in slot order
/// ([`ticked_sobjects`]).
pub fn process_sobjects(sobjects: &mut Pool<SObject>, sobject_types: &[SObjectType])
    requires
        old(sobjects).wf(),
        forall|i: int| 0 <= i < old(sobjects)@.len() && #[trigger] old(sobjects)@[i] is Some ==>
            sobject_tick_ok(old(sobjects)@[i]->0, sobject_types@),
    ensures
        final(sobjects).wf(),
        final(sobjects)@ == ticked_sobjects(old(sobjects)@, sobject_types@),
{
    let ghost orig = sobjects@;
    let cap = sobjects.capacity();
    let mut slot: usize = 0;
    while slot < cap
        invariant
            slot <= cap,
            cap == orig.len(),
            sobjects.wf(),
            sobjects@.len() == cap,
            forall|i: int| 0 <= i < orig.len() && #[trigger] orig[i] is Some ==> sobject_tick_ok(orig[i]->0, sobject_types@),
            forall|i: int| slot <= i < cap ==> #[trigger] sobjects@[i] == orig[i],
            forall|i: int| 0 <= i < slot ==> #[trigger] sobjects@[i] == ticked_sobjects(orig, sobject_types@)[i],
        decreases cap - slot,
    {
        let current = sobjects.get(slot);
        match current {
            Some(r) => {
                let mut obj = *r;
                assert(orig[slot as int] is Some);
                let ty = &sobject_types[obj.id as usize];
                let out = sobject_process(&mut obj, ty);
                match out {
                    SObjectOutcome::Keep => {
                        match sobjects.get_mut(slot) {
                            Some(m) => {
                                *m = obj;
                            },
                            None => {},
                        }
                    },
                    SObjectOutcome::Free => {
                        sobjects.free(slot);
                    },
                }
            },
            None => {},
        }
        slot += 1;
    }
    assert(sobjects@ =~= ticked_sobjects(orig, sobject_types@));
}

} // verus!
