//! Bonus crates: the spawn-position test, the per-bonus process verdict and the
//! health pickup.

use vstd::prelude::*;
use crate::fixed::{ftoi, itof, spec_ftoi, spec_wrapping_abs, spec_wrapping_div, spec_wrapping_neg, trunc_div, wrapping_abs_i32, wrapping_div_i32, wrapping_neg_i32};
use crate::blit::{cratered, SpriteSet, Texture};
use crate::draws::{lemma_tape_bound_below, tape_bound, DrawTape, Draws};
use crate::fixed::Vec2;
use crate::object_types::{NObjectType, SObjectType, Weapon};
use crate::sobject::{blast, blast_ok, lemma_blast_ok_frame, new_sobject, nobjects_typed, sobject_create, wobjects_typed};
use crate::pool::{is_lowest_free, all_live, lemma_live_count_bound, lemma_lowest_free_unique, live_count, reuse_slot, Pool};
use crate::state::{has_flag, Bonus, LevelSim, NObject, SObject, WObject, WormState, MAT_BACKGROUND, MAT_DIRT_ROCK, NUM_WEAPONS};
use vstd::wrapping::i32_specs::{wrapping_add, wrapping_mul, wrapping_sub};

verus! {

/// The 5x5 box `[x-2, x+3) x [y-2, y+3)` around a candidate bonus position,
/// intersected with the level.
pub open spec fn bonus_box(level: LevelSim, x: i32, y: i32) -> (int, int, int, int) {
    (
        if x - 2 < 0 { 0 } else { x - 2 },
        if y - 2 < 0 { 0 } else { y - 2 },
        if x + 3 < level.width { x + 3 } else { level.width as int },
        if y + 3 < level.height { y + 3 } else { level.height as int },
    )
}

/// No pixel of `[x1, x2) x [y1, y2)` is dirt or rock.
pub open spec fn dirt_rock_free(level: LevelSim, x1: int, y1: int, x2: int, y2: int) -> bool {
    forall|i: int, j: int| x1 <= i < x2 && y1 <= j < y2 ==> !has_flag(#[trigger] level.flags_xy(i, j), MAT_DIRT_ROCK)
}

/// Whether a bonus may spawn at `(x, y)`: the 5x5 box around it, clamped to
/// the level, holds no dirt or rock.
pub fn check_bonus_spawn_position(level: &LevelSim, x: i32, y: i32) -> (r: bool)
    requires
        level.wf(),
        i32::MIN + 2 <= x <= i32::MAX - 3,
        i32::MIN + 2 <= y <= i32::MAX - 3,
    ensures
        r == {
            let (x1, y1, x2, y2) = bonus_box(*level, x, y);
            dirt_rock_free(*level, x1, y1, x2, y2)
        },
{
    let x1 = if x - 2 < 0 { 0 } else { x - 2 };
    let y1 = if y - 2 < 0 { 0 } else { y - 2 };
    let x2 = if x + 3 < level.width { x + 3 } else { level.width };
    let y2 = if y + 3 < level.height { y + 3 } else { level.height };
    let ghost bx = bonus_box(*level, x, y);
    assert(bx == (x1 as int, y1 as int, x2 as int, y2 as int));

    let mut cx = x1;
    while cx < x2
        invariant
            level.wf(),
            x1 >= 0,
            y1 >= 0,
            x2 <= level.width,
            y2 <= level.height,
            x1 <= cx,
            bx == (x1 as int, y1 as int, x2 as int, y2 as int),
            bx == bonus_box(*level, x, y),
            dirt_rock_free(*level, x1 as int, y1 as int, cx as int, y2 as int),
        decreases x2 - cx,
    {
        let mut cy = y1;
        while cy < y2
            invariant
                level.wf(),
                x1 <= cx < x2,
                x1 >= 0,
                y1 >= 0,
                x2 <= level.width,
                y2 <= level.height,
                y1 <= cy,
                bx == (x1 as int, y1 as int, x2 as int, y2 as int),
                bx == bonus_box(*level, x, y),
                dirt_rock_free(*level, x1 as int, y1 as int, cx as int, y2 as int),
                dirt_rock_free(*level, cx as int, y1 as int, cx + 1, cy as int),
            decreases y2 - cy,
        {
            if level.dirt_rock(cx, cy) {
                assert(!dirt_rock_free(*level, x1 as int, y1 as int, x2 as int, y2 as int)) by {
                    assert(has_flag(level.flags_xy(cx as int, cy as int), MAT_DIRT_ROCK));
                }
                return false;
            }
            cy += 1;
        }
        assert(dirt_rock_free(*level, x1 as int, y1 as int, cx + 1, y2 as int)) by {
            assert forall|i: int, j: int| x1 <= i < cx + 1 && y1 <= j < y2
                implies !has_flag(#[trigger] level.flags_xy(i, j), MAT_DIRT_ROCK) by {
                if i < cx {
                } else {
                }
            }
        }
        cx += 1;
    }
    true
}

/// The driver's verdict for a processed bonus: keep it in its slot or free it.
#[derive(Clone, Copy, PartialEq, Eq, Debug)]
pub enum BonusOutcome {
    /// Keep the bonus (write the processed copy back).
    Keep,
    /// Free the slot (the bonus expired).
    Free,
}

/// What one tick of a bonus asks of its caller.
#[derive(Clone, Copy, PartialEq, Eq, Debug)]
pub struct BonusStep {
    pub outcome: BonusOutcome,
    /// On expiry: the explosion object type to create and its centre pixel.
    pub expire: Option<(i32, i32, i32)>,
}

/// The fall of a bonus: the velocity after gravity (applied over a background
/// pixel just below) and the bounce (reflecting `vel * mul / div`, and zeroing
/// a result slower than 100 by two's-complement magnitude, when the next row is above the level, at or
/// below its last row, or solid).
pub open spec fn fallen_vel(b: Bonus, level: LevelSim, gravity: i32, mul: i32, div: i32) -> i32 {
    let y = wrapping_add(b.y, b.vel_y);
    let kx = spec_ftoi(b.x);
    let ky = spec_ftoi(y);
    let v1 = if level.in_bounds(kx, ky + 1) && has_flag(level.flags_xy(kx, ky + 1), MAT_BACKGROUND) {
        wrapping_add(b.vel_y, gravity)
    } else {
        b.vel_y
    };
    let kny = spec_ftoi(wrapping_add(y, v1));
    if bounce_hit(b, level, gravity) {
        let v2 = spec_wrapping_div(spec_wrapping_neg(wrapping_mul(v1, mul)), div);
        if spec_wrapping_abs(v2) < 100 { 0 } else { v2 }
    } else {
        v1
    }
}

/// A bonus falls under gravity and bounces back: with air (background)
/// below its new pixel its fall speed gains the gravity, otherwise it is kept;
/// when its next row is blocked that speed is reversed and scaled by
/// `mul / div` (truncating), so with a non-negative `mul`, a positive `div`
/// and a product that fits `i32` a bonus falling down moves up or stops, and
/// one moving up moves down or stops.
pub proof fn law_bonus_falls_and_bounces_back(b: Bonus, level: LevelSim, gravity: i32, mul: i32, div: i32)
    ensures
        ({
            let y = wrapping_add(b.y, b.vel_y);
            let kx = spec_ftoi(b.x);
            let ky = spec_ftoi(y);
            let air = level.in_bounds(kx, ky + 1) && has_flag(level.flags_xy(kx, ky + 1), MAT_BACKGROUND);
            let v1 = if air { wrapping_add(b.vel_y, gravity) } else { b.vel_y };
            let r = fallen_vel(b, level, gravity, mul, div);
            &&& (!bounce_hit(b, level, gravity) && air && i32::MIN <= b.vel_y + gravity <= i32::MAX)
                ==> r == b.vel_y + gravity
            &&& (!bounce_hit(b, level, gravity) && !air) ==> r == b.vel_y
            &&& (bounce_hit(b, level, gravity) && 0 <= mul && 0 < div && i32::MIN < v1 * mul <= i32::MAX && v1 >= 0)
                ==> r <= 0
            &&& (bounce_hit(b, level, gravity) && 0 <= mul && 0 < div && i32::MIN < v1 * mul <= i32::MAX && v1 <= 0)
                ==> r >= 0
        }),
{
    let y = wrapping_add(b.y, b.vel_y);
    let kx = spec_ftoi(b.x);
    let ky = spec_ftoi(y);
    let air = level.in_bounds(kx, ky + 1) && has_flag(level.flags_xy(kx, ky + 1), MAT_BACKGROUND);
    let v1 = if air { wrapping_add(b.vel_y, gravity) } else { b.vel_y };
    if 0 <= mul && 0 < div && i32::MIN < v1 * mul <= i32::MAX {
        crate::fixed::lemma_wrapping_mul_exact(v1, mul);
        let p = v1 * mul;
        let m = wrapping_mul(v1, mul);
        assert(m == p);
        assert(crate::fixed::spec_wrapping_neg(m) == -p);
        if v1 >= 0 {
            assert(0 <= p) by (nonlinear_arith) requires p == v1 * mul, 0 <= v1, 0 <= mul;
            assert(v1 == 0 ==> p == 0) by (nonlinear_arith) requires p == v1 * mul;
            assert(0 <= p / (div as int) <= p) by (nonlinear_arith) requires 0 <= p, 0 < div;
            if p == 0 {
                assert(crate::fixed::trunc_div(-p, div as int) == 0);
            } else {
                assert(crate::fixed::trunc_div(-p, div as int) == -(p / (div as int)));
            }
        } else {
            assert(p <= 0) by (nonlinear_arith) requires p == v1 * mul, v1 < 0, 0 <= mul;
            assert(0 <= (-p) / (div as int) <= -p) by (nonlinear_arith) requires 0 <= -p, 0 < div;
            assert(crate::fixed::trunc_div(-p, div as int) == (-p) / (div as int));
        }
    }
}

/// The bonus's next row is above the level, at or below its last row, or solid.
pub open spec fn bounce_hit(b: Bonus, level: LevelSim, gravity: i32) -> bool {
    let y = wrapping_add(b.y, b.vel_y);
    let kx = spec_ftoi(b.x);
    let ky = spec_ftoi(y);
    let v1 = if level.in_bounds(kx, ky + 1) && has_flag(level.flags_xy(kx, ky + 1), MAT_BACKGROUND) {
        wrapping_add(b.vel_y, gravity)
    } else {
        b.vel_y
    };
    let kny = spec_ftoi(wrapping_add(y, v1));
    kny < 0 || kny >= level.height - 1 || (level.in_bounds(kx, kny) && has_flag(level.flags_xy(kx, kny), MAT_DIRT_ROCK))
}

/// The fall of a bonus for one tick, without its expiry explosion: it moves
/// by its vertical velocity, falls and bounces ([`fallen_vel`]), and its timer
/// counts down. When the timer reaches zero the result names the explosion
/// object `bonus_s_objects[frame]` and the bonus's pixel for the caller to
/// create, and a `used` bonus is to be freed.
pub fn bonus_fall(
    bonus: &mut Bonus,
    used: bool,
    level: &LevelSim,
    bonus_gravity: i32,
    bonus_bounce_mul: i32,
    bonus_bounce_div: i32,
    bonus_s_objects: &[i32; 2],
) -> (r: BonusStep)
    requires
        level.wf(),
        bounce_hit(*old(bonus), *level, bonus_gravity) ==> bonus_bounce_div != 0,
        wrapping_sub(old(bonus).timer, 1) <= 0 ==> 0 <= old(bonus).frame < 2,
    ensures
        final(bonus).y == wrapping_add(old(bonus).y, old(bonus).vel_y),
        final(bonus).vel_y == fallen_vel(*old(bonus), *level, bonus_gravity, bonus_bounce_mul, bonus_bounce_div),
        final(bonus).timer == wrapping_sub(old(bonus).timer, 1),
        *final(bonus) == (Bonus { y: final(bonus).y, vel_y: final(bonus).vel_y, timer: final(bonus).timer, ..*old(bonus) }),
        r.expire == if final(bonus).timer <= 0 {
            Some((bonus_s_objects[old(bonus).frame as int], spec_ftoi(old(bonus).x) as i32, spec_ftoi(final(bonus).y) as i32))
        } else {
            None
        },
        r.outcome == if final(bonus).timer <= 0 && used { BonusOutcome::Free } else { BonusOutcome::Keep },
{
    let ghost b0 = *bonus;
    bonus.y = bonus.y.wrapping_add(bonus.vel_y);
    let k_ix = ftoi(bonus.x);
    let k_iy = ftoi(bonus.y);
    if level.inside(k_ix, k_iy + 1) && level.background(k_ix, k_iy + 1) {
        bonus.vel_y = bonus.vel_y.wrapping_add(bonus_gravity);
    }
    let k_inew_y = ftoi(bonus.y.wrapping_add(bonus.vel_y));
    if k_inew_y < 0 || k_inew_y >= level.height - 1 || level.dirt_rock(k_ix, k_inew_y) {
        assert(bounce_hit(b0, *level, bonus_gravity));
        bonus.vel_y = wrapping_div_i32(wrapping_neg_i32(bonus.vel_y.wrapping_mul(bonus_bounce_mul)), bonus_bounce_div);
        if wrapping_abs_i32(bonus.vel_y) < 100 {
            bonus.vel_y = 0;
        }
    } else {
        assert(!bounce_hit(b0, *level, bonus_gravity));
    }
    bonus.timer = bonus.timer.wrapping_sub(1);
    if bonus.timer <= 0 {
        let ty = bonus_s_objects[bonus.frame as usize];
        let outcome = if used { BonusOutcome::Free } else { BonusOutcome::Keep };
        return BonusStep { outcome, expire: Some((ty, k_ix, k_iy)) };
    }
    BonusStep { outcome: BonusOutcome::Keep, expire: None }
}

/// Advances a bonus by one tick, reading its draws from `draws`: the fall
/// ([`processed_bonus`], on the level before anything else changes it); when
/// the timer reaches zero, the explosion of object type
/// `sobject_types[bonus_s_objects[frame]]` at the bonus's new pixel, caused by
/// worm 0 ([`sobject_create`], [`blast`]). Returns `Free` for an expired `used`
/// bonus and `Keep` otherwise.
pub fn bonus_process(
    bonus: &mut Bonus,
    used: bool,
    level: &mut LevelSim,
    worms: &mut Vec<WormState>,
    wobjects: &mut Pool<WObject>,
    nobjects: &mut Pool<NObject>,
    sobjects: &mut Pool<SObject>,
    weapons: &[Weapon],
    nobject_types: &[NObjectType],
    sobject_types: &[SObjectType],
    cossin: &[Vec2; 128],
    large_sprites: &SpriteSet,
    textures: &[Texture],
    blood: i32,
    bonus_gravity: i32,
    bonus_bounce_mul: i32,
    bonus_bounce_div: i32,
    bonus_s_objects: &[i32; 2],
    draws: &mut Draws,
) -> (r: BonusOutcome)
    requires
        old(level).wf(),
        old(draws).wf(),
        bounce_hit(*old(bonus), *old(level), bonus_gravity) ==> bonus_bounce_div != 0,
        wrapping_sub(old(bonus).timer, 1) <= 0 ==> {
            let b = *old(bonus);
            &&& 0 <= b.frame < 2
            &&& 0 <= bonus_s_objects@[b.frame as int] < sobject_types@.len()
            &&& old(sobjects).wf()
            &&& exists|i: int| 0 <= i < old(sobjects)@.len() && #[trigger] old(sobjects)@[i] is None
            &&& blast_ok(sobject_types@[bonus_s_objects@[b.frame as int] as int], spec_ftoi(b.x) as i32,
                spec_ftoi(wrapping_add(b.y, b.vel_y)) as i32, old(worms)@, *old(wobjects), weapons@,
                *old(nobjects), nobject_types@, *old(level), *large_sprites, textures@, blood)
        },
    ensures
        final(draws).wf(),
        *final(bonus) == processed_bonus(*old(bonus), *old(level), bonus_gravity, bonus_bounce_mul, bonus_bounce_div),
        r == if final(bonus).timer <= 0 && used { BonusOutcome::Free } else { BonusOutcome::Keep },
        final(bonus).timer > 0 ==> {
            &&& *final(level) == *old(level)
            &&& final(worms)@ == old(worms)@
            &&& final(wobjects)@ == old(wobjects)@
            &&& final(nobjects)@ == old(nobjects)@
            &&& final(sobjects)@ == old(sobjects)@
            &&& final(draws)@ == old(draws)@
        },
        final(bonus).timer <= 0 ==> {
            let st = sobject_types@[bonus_s_objects@[old(bonus).frame as int] as int];
            let x = spec_ftoi(old(bonus).x) as i32;
            let y = spec_ftoi(final(bonus).y) as i32;
            let bl = blast(st, x, y, 0, old(worms)@, old(wobjects)@, weapons@, old(nobjects)@, nobject_types@,
                *old(level), cossin@, textures@, blood, old(draws)@);
            &&& final(worms)@ == bl.worms
            &&& final(wobjects)@ == bl.wobjects
            &&& final(nobjects)@ == bl.nobjects
            &&& final(draws)@ == bl.tape
            &&& final(sobjects).wf()
            &&& exists|i: int| is_lowest_free(old(sobjects)@, i)
                && final(sobjects)@ == old(sobjects)@.update(i, Some(new_sobject(st, x, y)))
            &&& cratered(*old(level), *final(level), *large_sprites, textures@[st.dirt_effect as int],
                textures@[st.dirt_effect as int].sframe + bl.fill, x - 7, y - 7, st.dirt_effect >= 0)
        },
{
    let step = bonus_fall(bonus, used, level, bonus_gravity, bonus_bounce_mul, bonus_bounce_div, bonus_s_objects);
    match step.expire {
        Some(e) => {
            let (t, x, y) = e;
            sobject_create(&sobject_types[t as usize], x, y, 0, worms, wobjects, weapons, nobjects, nobject_types,
                level, cossin, large_sprites, textures, sobjects, blood, draws);
        },
        None => {},
    }
    step.outcome
}

/// The bonus's pixel lies strictly within 5 pixels of the worm's pixel on
/// both axes.
pub open spec fn in_pickup_range(w: WormState, b: Bonus) -> bool {
    let wx = spec_ftoi(w.pos.x);
    let wy = spec_ftoi(w.pos.y);
    let bx = spec_ftoi(b.x);
    let by = spec_ftoi(b.y);
    wx + 5 > bx && wx - 5 < bx && wy + 5 > by && wy - 5 < by
}

/// The draw a worm's pickup of a bonus makes.
#[derive(Clone, Copy, PartialEq, Eq, Debug)]
pub enum PickupDraw {
    /// No draw: out of range, a health bonus at full health, or another frame.
    Nothing,
    /// A health bonus below full health: a draw below the health variance.
    HealthVar,
    /// A weapon bonus: a draw below the explode risk.
    ExplodeRisk,
}

/// The draw the pickup of `b` by `w` makes.
pub open spec fn pickup_draw_of(w: WormState, b: Bonus, settings_health: i32) -> PickupDraw {
    if !in_pickup_range(w, b) {
        PickupDraw::Nothing
    } else if b.frame == 1 {
        if w.health < settings_health { PickupDraw::HealthVar } else { PickupDraw::Nothing }
    } else if b.frame == 0 {
        PickupDraw::ExplodeRisk
    } else {
        PickupDraw::Nothing
    }
}

/// A worm picks up a bonus only when the bonus's pixel is within 4 pixels of
/// the worm's pixel on both axes (a bonus 5 or more pixels away on either axis
/// makes no draw and stays), and within that reach it always picks up a weapon
/// bonus, and a health bonus whenever it is below full health.
pub proof fn law_pickup_reach(w: WormState, b: Bonus, settings_health: i32)
    ensures
        ({
            let dx = spec_ftoi(b.x) - spec_ftoi(w.pos.x);
            let dy = spec_ftoi(b.y) - spec_ftoi(w.pos.y);
            &&& pickup_draw_of(w, b, settings_health) != PickupDraw::Nothing ==> -5 < dx < 5 && -5 < dy < 5
            &&& (dx <= -5 || dx >= 5 || dy <= -5 || dy >= 5) ==> pickup_draw_of(w, b, settings_health) == PickupDraw::Nothing
            &&& (-5 < dx < 5 && -5 < dy < 5 && b.frame == 0) ==> pickup_draw_of(w, b, settings_health) == PickupDraw::ExplodeRisk
            &&& (-5 < dx < 5 && -5 < dy < 5 && b.frame == 1 && w.health < settings_health)
                ==> pickup_draw_of(w, b, settings_health) == PickupDraw::HealthVar
        }),
{
}

/// Which draw, if any, the pickup of `bonus` by `worm` makes.
pub fn pickup_draw(worm: &WormState, bonus: &Bonus, settings_health: i32) -> (r: PickupDraw)
    ensures
        r == pickup_draw_of(*worm, *bonus, settings_health),
{
    let wx = ftoi(worm.pos.x);
    let wy = ftoi(worm.pos.y);
    let bx = ftoi(bonus.x);
    let by = ftoi(bonus.y);
    if !(wx + 5 > bx && wx - 5 < bx && wy + 5 > by && wy - 5 < by) {
        PickupDraw::Nothing
    } else if bonus.frame == 1 {
        if worm.health < settings_health { PickupDraw::HealthVar } else { PickupDraw::Nothing }
    } else if bonus.frame == 0 {
        PickupDraw::ExplodeRisk
    } else {
        PickupDraw::Nothing
    }
}

/// What a pickup does to the bonus.
#[derive(Clone, Copy, PartialEq, Eq, Debug)]
pub enum PickupEffect {
    /// The bonus stays.
    Keep,
    /// The bonus is freed.
    Free,
    /// The bonus is freed and a booby trap explodes at this pixel, caused by the worm.
    Booby(i32, i32),
}

/// The heal of a health bonus: `(draw + min_health) * settings_health / 100`.
pub open spec fn heal_amount(draw: u32, min_health: i32, settings_health: i32) -> int {
    trunc_div(((draw as i32) + min_health) * settings_health, 100)
}

/// The worm after picking up a weapon bonus that reloads: unless the reload-only
/// hack is set, the current slot takes the bonus's weapon with its full ammo
/// and the fire cone closes; in every case the slot finishes loading.
pub open spec fn reloaded(w: WormState, weapon: Weapon, reload_only: bool, r: WormState) -> bool {
    let cw = w.current_weapon as int;
    let slot = w.weapons[cw];
    let slot2 = if reload_only { slot } else { crate::state::WormWeapon { ty: Some(weapon.id), ammo: weapon.ammo, ..slot } };
    &&& r.weapons@ == w.weapons@.update(cw, crate::state::WormWeapon { loading_left: 0, ..slot2 })
    &&& r == (WormState { fire_cone: if reload_only { w.fire_cone } else { 0 }, weapons: r.weapons, ..w })
}

/// The worm `worm` picks up `bonus`; `draw` is the draw [`pickup_draw`]
/// called for (ignored when it called for none).
///
/// A health bonus below full health is freed and heals
/// [`heal_amount`], capped at `settings_health`. A weapon bonus with a draw
/// above 1 is freed and reloads the current slot ([`reloaded`]); with a draw
/// of 0 or 1 it is freed and explodes as a booby trap at its pixel.
pub fn worm_pickup_bonus(
    worm: &mut WormState,
    bonus: &Bonus,
    weapons: &[Weapon],
    settings_health: i32,
    bonus_min_health: i32,
    h_bonus_reload_only: bool,
    draw: u32,
) -> (r: PickupEffect)
    requires
        pickup_draw_of(*old(worm), *bonus, settings_health) == PickupDraw::HealthVar ==> {
            &&& i32::MIN <= (draw as i32) + bonus_min_health <= i32::MAX
            &&& i32::MIN <= ((draw as i32) + bonus_min_health) * settings_health <= i32::MAX
            &&& i32::MIN <= old(worm).health + heal_amount(draw, bonus_min_health, settings_health) <= i32::MAX
        },
        pickup_draw_of(*old(worm), *bonus, settings_health) == PickupDraw::ExplodeRisk ==> {
            &&& 0 <= old(worm).current_weapon < NUM_WEAPONS
            &&& (draw as i32 > 1 && !h_bonus_reload_only) ==> 0 <= bonus.weapon < weapons@.len()
        },
    ensures
        match pickup_draw_of(*old(worm), *bonus, settings_health) {
            PickupDraw::Nothing => r == PickupEffect::Keep && *final(worm) == *old(worm),
            PickupDraw::HealthVar => {
                let h = old(worm).health + heal_amount(draw, bonus_min_health, settings_health);
                &&& r == PickupEffect::Free
                &&& *final(worm) == (WormState { health: if h < settings_health { h as i32 } else { settings_health }, ..*old(worm) })
            },
            PickupDraw::ExplodeRisk => if draw as i32 > 1 {
                &&& r == PickupEffect::Free
                &&& reloaded(*old(worm), weapons@[bonus.weapon as int], h_bonus_reload_only, *final(worm))
            } else {
                &&& r == PickupEffect::Booby(spec_ftoi(bonus.x) as i32, spec_ftoi(bonus.y) as i32)
                &&& *final(worm) == *old(worm)
            },
        },
{
    let d = pickup_draw(worm, bonus, settings_health);
    match d {
        PickupDraw::Nothing => PickupEffect::Keep,
        PickupDraw::HealthVar => {
            let amount = (draw as i32 + bonus_min_health) * settings_health / 100;
            do_healing_direct(worm, amount, settings_health);
            PickupEffect::Free
        },
        PickupDraw::ExplodeRisk => {
            if draw as i32 > 1 {
                let cw = worm.current_weapon as usize;
                let ghost w0 = *worm;
                if !h_bonus_reload_only {
                    worm.fire_cone = 0;
                    let def = weapons[bonus.weapon as usize];
                    worm.weapons[cw].ty = Some(def.id);
                    worm.weapons[cw].ammo = def.ammo;
                }
                worm.weapons[cw].loading_left = 0;
                assert(reloaded(w0, weapons@[bonus.weapon as int], h_bonus_reload_only, *worm)) by {
                    assert(worm.weapons@ =~= w0.weapons@.update(cw as int, worm.weapons@[cw as int]));
                }
                PickupEffect::Free
            } else {
                PickupEffect::Booby(ftoi(bonus.x), ftoi(bonus.y))
            }
        },
    }
}

/// Heals `w` by `amount`, then caps its health at `settings_health`.
pub fn do_healing_direct(w: &mut WormState, amount: i32, settings_health: i32)
    requires
        i32::MIN <= old(w).health + amount <= i32::MAX,
    ensures
        final(w).health == if old(w).health + amount < settings_health {
            old(w).health + amount
        } else {
            settings_health as int
        },
        *final(w) == (WormState { health: final(w).health, ..*old(w) }),
{
    w.health = w.health + amount;
    if w.health > settings_health {
        w.health = settings_health;
    }
}

// ---------------------------------------------------------------------------
// The pickup walk
// ---------------------------------------------------------------------------

/// The state a walk over the bonus slots acts on.
pub struct BonusWalkState {
    pub worms: Seq<WormState>,
    pub bonuses: Seq<Option<Bonus>>,
    pub wobjects: Seq<Option<WObject>>,
    pub nobjects: Seq<Option<NObject>>,
    pub sobjects: Seq<Option<SObject>>,
    pub level: LevelSim,
    pub tape: DrawTape,
}

/// The picking worm, the settings and the tables of a pickup walk.
pub struct PickupRules {
    pub wi: int,
    pub weapons: Seq<Weapon>,
    pub nobject_types: Seq<NObjectType>,
    pub sobject_types: Seq<SObjectType>,
    pub cossin: Seq<Vec2>,
    pub large_sprites: SpriteSet,
    pub textures: Seq<Texture>,
    pub blood: i32,
    pub settings_health: i32,
    pub health_var: i32,
    pub min_health: i32,
    pub explode_risk: i32,
    pub reload_only: bool,
}

/// The heal of draw `d` on a worm of health `h` fits `i32` at every step.
pub open spec fn heal_fits(d: u32, min_health: i32, settings_health: i32, h: i32) -> bool {
    &&& i32::MIN <= (d as i32) + min_health <= i32::MAX
    &&& i32::MIN <= ((d as i32) + min_health) * settings_health <= i32::MAX
    &&& i32::MIN <= h + heal_amount(d, min_health, settings_health) <= i32::MAX
}

/// The pickup at slot `k` of state `s` cannot be carried out: a heal that
/// overflows `i32`, a reload with a weapon outside the table, or a booby trap
/// with no free slot for its explosion.
pub open spec fn pickup_blocked(c: PickupRules, k: int, s: BonusWalkState) -> bool {
    &&& s.bonuses[k] is Some
    &&& {
        let b = s.bonuses[k]->0;
        let w = s.worms[c.wi];
        match pickup_draw_of(w, b, c.settings_health) {
            PickupDraw::Nothing => false,
            PickupDraw::HealthVar => !heal_fits(tape_bound(s.tape, c.health_var as u32).0, c.min_health,
                c.settings_health, w.health),
            PickupDraw::ExplodeRisk => {
                let d = tape_bound(s.tape, c.explode_risk as u32).0;
                if d as i32 > 1 {
                    !c.reload_only && !(0 <= b.weapon < c.weapons.len())
                } else {
                    all_live(s.sobjects)
                }
            },
        }
    }
}

/// The pickup of the bonus at slot `k` takes `pre` to `post`: an empty slot or
/// a bonus the worm does not take changes nothing; a health bonus below full
/// health is freed and heals ([`heal_amount`], capped at full health); a
/// weapon bonus reads its risk draw and is freed, and either reloads the
/// current slot ([`reloaded`], a draw above 1) or explodes as a booby trap:
/// explosion object type 0 at the bonus pixel, caused by the worm ([`blast`]).
pub open spec fn pickup_step(c: PickupRules, k: int, pre: BonusWalkState, post: BonusWalkState) -> bool {
    if !(pre.bonuses[k] is Some) {
        post == pre
    } else {
        let b = pre.bonuses[k]->0;
        let w = pre.worms[c.wi];
        let freed = pre.bonuses.update(k, None);
        match pickup_draw_of(w, b, c.settings_health) {
            PickupDraw::Nothing => post == pre,
            PickupDraw::HealthVar => {
                let (d, t1) = tape_bound(pre.tape, c.health_var as u32);
                let h = w.health + heal_amount(d, c.min_health, c.settings_health);
                let healed = WormState { health: if h < c.settings_health { h as i32 } else { c.settings_health }, ..w };
                post == BonusWalkState { worms: pre.worms.update(c.wi, healed), bonuses: freed, tape: t1, ..pre }
            },
            PickupDraw::ExplodeRisk => {
                let (d, t1) = tape_bound(pre.tape, c.explode_risk as u32);
                if d as i32 > 1 {
                    &&& reloaded(w, c.weapons[b.weapon as int], c.reload_only, post.worms[c.wi])
                    &&& post == BonusWalkState {
                        worms: pre.worms.update(c.wi, post.worms[c.wi]),
                        bonuses: freed,
                        tape: t1,
                        ..pre
                    }
                } else {
                    let st = c.sobject_types[0];
                    let bx = spec_ftoi(b.x) as i32;
                    let by = spec_ftoi(b.y) as i32;
                    let bl = blast(st, bx, by, w.index, pre.worms, pre.wobjects, c.weapons, pre.nobjects,
                        c.nobject_types, pre.level, c.cossin, c.textures, c.blood, t1);
                    &&& post.worms == bl.worms
                    &&& post.wobjects == bl.wobjects
                    &&& post.nobjects == bl.nobjects
                    &&& post.tape == bl.tape
                    &&& post.bonuses == freed
                    &&& exists|i: int| is_lowest_free(pre.sobjects, i)
                        && post.sobjects == pre.sobjects.update(i, Some(new_sobject(st, bx, by)))
                    &&& cratered(pre.level, post.level, c.large_sprites, c.textures[st.dirt_effect as int],
                        c.textures[st.dirt_effect as int].sframe + bl.fill, bx - 7, by - 7, st.dirt_effect >= 0)
                }
            },
        }
    }
}

/// Link `j` of a walk: slot `j` was not blocked and its pickup took state `j`
/// to state `j + 1`.
pub open spec fn pickup_link(c: PickupRules, chain: Seq<BonusWalkState>, j: int) -> bool {
    &&& !pickup_blocked(c, j, chain[j])
    &&& pickup_step(c, j, chain[j], chain[j + 1])
}

/// `chain` is a walk over its first `chain.len() - 1` slots.
pub open spec fn pickup_chain(c: PickupRules, chain: Seq<BonusWalkState>) -> bool {
    forall|j: int| 0 <= j < chain.len() - 1 ==> #[trigger] pickup_link(c, chain, j)
}

/// `chain` walks from `init` to `last`: over all `cap` slots when `r` is
/// `Ok`, or up to the blocked slot `k` when `r` is `Err(k)`.
pub open spec fn pickup_walk(
    c: PickupRules,
    init: BonusWalkState,
    last: BonusWalkState,
    chain: Seq<BonusWalkState>,
    r: Result<(), usize>,
    cap: nat,
) -> bool {
    &&& pickup_chain(c, chain)
    &&& chain.len() > 0
    &&& chain[0] == init
    &&& chain.last() == last
    &&& match r {
        Ok(()) => chain.len() == cap + 1,
        Err(k) => chain.len() == k + 1 && k < cap && pickup_blocked(c, k as int, last),
    }
}

/// A booby trap at a bonus of `bonuses` can explode: the explosion of object
/// type 0 at the pixel of every weapon bonus the worm `w` can reach meets
/// [`blast_ok`].
pub open spec fn boobies_ok(
    w: WormState,
    worms: Seq<WormState>,
    bonuses: Seq<Option<Bonus>>,
    wobjects: Pool<WObject>,
    weapons: Seq<Weapon>,
    nobjects: Pool<NObject>,
    nobject_types: Seq<NObjectType>,
    sobject_types: Seq<SObjectType>,
    level: LevelSim,
    large_sprites: SpriteSet,
    textures: Seq<Texture>,
    blood: i32,
) -> bool {
    forall|k: int| 0 <= k < bonuses.len() && #[trigger] bonuses[k] is Some
        && bonuses[k]->0.frame == 0 && in_pickup_range(w, bonuses[k]->0) ==>
        blast_ok(sobject_types[0], spec_ftoi(bonuses[k]->0.x) as i32, spec_ftoi(bonuses[k]->0.y) as i32,
            worms, wobjects, weapons, nobjects, nobject_types, level, large_sprites, textures, blood)
}

/// The bonus pickup of worm `wi`: walks the bonus slots in order and applies
/// [`pickup_step`] to each, reading its draws from `draws`.
///
/// The walk stops with `Err(k)` before touching anything at the first slot `k`
/// whose pickup is [`pickup_blocked`]; otherwise it returns `Ok(())` after the
/// last slot. The ensures state the walk as a chain of states from the
/// inputs to the outputs ([`pickup_chain`]).
pub fn worm_pickup_bonuses(
    worms: &mut Vec<WormState>,
    wi: usize,
    bonuses: &mut Pool<Bonus>,
    wobjects: &mut Pool<WObject>,
    nobjects: &mut Pool<NObject>,
    sobjects: &mut Pool<SObject>,
    weapons: &[Weapon],
    nobject_types: &[NObjectType],
    sobject_types: &[SObjectType],
    level: &mut LevelSim,
    cossin: &[Vec2; 128],
    large_sprites: &SpriteSet,
    textures: &[Texture],
    blood: i32,
    settings_health: i32,
    bonus_health_var: i32,
    bonus_min_health: i32,
    bonus_explode_risk: i32,
    h_bonus_reload_only: bool,
    draws: &mut Draws,
) -> (r: Result<(), usize>)
    requires
        wi < old(worms)@.len(),
        0 <= old(worms)@[wi as int].current_weapon < NUM_WEAPONS,
        old(bonuses).wf(),
        old(wobjects).wf(),
        wobjects_typed(old(wobjects)@, weapons@.len() as int),
        old(nobjects).wf(),
        nobjects_typed(old(nobjects)@, nobject_types@.len() as int),
        old(sobjects).wf(),
        old(level).wf(),
        old(draws).wf(),
        sobject_types@.len() > 0,
        boobies_ok(old(worms)@[wi as int], old(worms)@, old(bonuses)@, *old(wobjects), weapons@, *old(nobjects),
            nobject_types@, sobject_types@, *old(level), *large_sprites, textures@, blood),
    ensures
        exists|chain: Seq<BonusWalkState>| #[trigger] pickup_walk(
            (PickupRules {
                wi: wi as int,
                weapons: weapons@,
                nobject_types: nobject_types@,
                sobject_types: sobject_types@,
                cossin: cossin@,
                large_sprites: *large_sprites,
                textures: textures@,
                blood,
                settings_health,
                health_var: bonus_health_var,
                min_health: bonus_min_health,
                explode_risk: bonus_explode_risk,
                reload_only: h_bonus_reload_only,
            }),
            (BonusWalkState {
                worms: old(worms)@,
                bonuses: old(bonuses)@,
                wobjects: old(wobjects)@,
                nobjects: old(nobjects)@,
                sobjects: old(sobjects)@,
                level: *old(level),
                tape: old(draws)@,
            }),
            (BonusWalkState {
                worms: final(worms)@,
                bonuses: final(bonuses)@,
                wobjects: final(wobjects)@,
                nobjects: final(nobjects)@,
                sobjects: final(sobjects)@,
                level: *final(level),
                tape: final(draws)@,
            }),
            chain,
            r,
            old(bonuses)@.len(),
        ),
{
    let ghost c = PickupRules {
        wi: wi as int,
        weapons: weapons@,
        nobject_types: nobject_types@,
        sobject_types: sobject_types@,
        cossin: cossin@,
        large_sprites: *large_sprites,
        textures: textures@,
        blood,
        settings_health,
        health_var: bonus_health_var,
        min_health: bonus_min_health,
        explode_risk: bonus_explode_risk,
        reload_only: h_bonus_reload_only,
    };
    let ghost worms0 = worms@;
    let ghost bonuses0 = bonuses@;
    let ghost wo0 = *wobjects;
    let ghost no0 = *nobjects;
    let ghost lv0 = *level;
    let ghost w0 = worms@[wi as int];
    let ghost mut chain: Seq<BonusWalkState> = seq![BonusWalkState {
        worms: worms@,
        bonuses: bonuses@,
        wobjects: wobjects@,
        nobjects: nobjects@,
        sobjects: sobjects@,
        level: *level,
        tape: draws@,
    }];
    let ghost init = chain[0];
    let cap = bonuses.capacity();
    let mut slot: usize = 0;
    while slot < cap
        invariant
            slot <= cap,
            cap == bonuses0.len(),
            bonuses@.len() == cap,
            forall|j: int| slot <= j < cap ==> #[trigger] bonuses@[j] == bonuses0[j],
            wi < worms@.len(),
            worms@.len() == worms0.len(),
            forall|i: int| 0 <= i < worms0.len() ==> (#[trigger] worms@[i]).pos == worms0[i].pos,
            worms@[wi as int].pos == w0.pos,
            worms@[wi as int].current_weapon == w0.current_weapon,
            0 <= w0.current_weapon < NUM_WEAPONS,
            bonuses.wf(),
            wobjects.wf(),
            wobjects_typed(wobjects@, weapons@.len() as int),
            nobjects.wf(),
            nobjects@.len() == no0@.len(),
            nobjects_typed(nobjects@, nobject_types@.len() as int),
            sobjects.wf(),
            level.wf(),
            level.width == lv0.width,
            level.height == lv0.height,
            draws.wf(),
            sobject_types@.len() > 0,
            boobies_ok(w0, worms0, bonuses0, wo0, weapons@, no0, nobject_types@, sobject_types@, lv0,
                *large_sprites, textures@, blood),
            chain.len() == slot + 1,
            pickup_chain(c, chain),
            c == (PickupRules {
                wi: wi as int,
                weapons: weapons@,
                nobject_types: nobject_types@,
                sobject_types: sobject_types@,
                cossin: cossin@,
                large_sprites: *large_sprites,
                textures: textures@,
                blood,
                settings_health,
                health_var: bonus_health_var,
                min_health: bonus_min_health,
                explode_risk: bonus_explode_risk,
                reload_only: h_bonus_reload_only,
            }),
            chain[0] == init,
            init == (BonusWalkState {
                worms: old(worms)@,
                bonuses: old(bonuses)@,
                wobjects: old(wobjects)@,
                nobjects: old(nobjects)@,
                sobjects: old(sobjects)@,
                level: *old(level),
                tape: old(draws)@,
            }),
            bonuses0 == old(bonuses)@,
            init.worms == worms0,
            init.bonuses == bonuses0,
            init.wobjects == wo0@,
            init.nobjects == no0@,
            init.level == lv0,
            chain.last() == (BonusWalkState {
                worms: worms@, bonuses: bonuses@, wobjects: wobjects@, nobjects: nobjects@, sobjects: sobjects@,
                level: *level, tape: draws@,
            }),
        decreases cap - slot,
    {
        let ghost pre = chain.last();
        let maybe = bonuses.get(slot);
        match maybe {
            None => {
                proof {
                    let next = chain.push(pre);
                    assert(pickup_link(c, next, slot as int));
                    assert forall|j: int| 0 <= j < next.len() - 1 implies #[trigger] pickup_link(c, next, j) by {
                        if j < slot {
                            assert(pickup_link(c, chain, j));
                            assert(next[j] == chain[j] && next[j + 1] == chain[j + 1]);
                        }
                    }
                    chain = next;
                }
            },
            Some(bref) => {
                let bonus = *bref;
                let w = worms[wi];
                assert(w.pos == w0.pos);
                assert(pre.bonuses[slot as int] == Some(bonus));
                assert(pre.worms == worms@);
                assert(c.wi == wi as int);
                assert(pre.worms[c.wi] == w);
                assert(pre.tape == draws@);
                let pd = pickup_draw(&w, &bonus, settings_health);
                match pd {
                    PickupDraw::Nothing => {
                        proof {
                            let next = chain.push(pre);
                            assert(pickup_link(c, next, slot as int));
                            assert forall|j: int| 0 <= j < next.len() - 1 implies #[trigger] pickup_link(c, next, j) by {
                                if j < slot {
                                    assert(pickup_link(c, chain, j));
                                    assert(next[j] == chain[j] && next[j + 1] == chain[j + 1]);
                                }
                            }
                            chain = next;
                        }
                    },
                    PickupDraw::HealthVar => {
                        let d = draws.peek_bound(bonus_health_var as u32);
                        proof {
                            lemma_tape_bound_below(draws@, bonus_health_var as u32);
                        }
                        let a: i64 = (d as i32) as i64 + bonus_min_health as i64;
                        if a < i32::MIN as i64 || a > i32::MAX as i64 {
                            assert(pickup_walk(c, init, pre, chain, Err(slot), cap as nat));
                            return Err(slot);
                        }
                        assert(-0x8000_0000 * 0x8000_0000 <= a * settings_health <= 0x8000_0000 * 0x8000_0000) by (nonlinear_arith)
                            requires -0x8000_0000 <= a <= 0x7fff_ffff, -0x8000_0000 <= settings_health <= 0x7fff_ffff;
                        let m: i64 = a * (settings_health as i64);
                        if m < i32::MIN as i64 || m > i32::MAX as i64 {
                            assert(pickup_walk(c, init, pre, chain, Err(slot), cap as nat));
                            return Err(slot);
                        }
                        let heal: i64 = m / 100;
                        assert(heal == heal_amount(d, bonus_min_health, settings_health)) by {
                            assert(m == ((d as i32) + bonus_min_health) * settings_health);
                        }
                        let h: i64 = w.health as i64 + heal;
                        if h < i32::MIN as i64 || h > i32::MAX as i64 {
                            assert(pickup_walk(c, init, pre, chain, Err(slot), cap as nat));
                            return Err(slot);
                        }
                        draws.bound(bonus_health_var as u32);
                        bonuses.free(slot);
                        let mut w2 = w;
                        worm_pickup_bonus(&mut w2, &bonus, weapons, settings_health, bonus_min_health,
                            h_bonus_reload_only, d);
                        worms.set(wi, w2);
                        proof {
                            let post = BonusWalkState {
                                worms: worms@, bonuses: bonuses@, wobjects: wobjects@, nobjects: nobjects@,
                                sobjects: sobjects@, level: *level, tape: draws@,
                            };
                            let next = chain.push(post);
                            assert(pickup_link(c, next, slot as int));
                            assert forall|j: int| 0 <= j < next.len() - 1 implies #[trigger] pickup_link(c, next, j) by {
                                if j < slot {
                                    assert(pickup_link(c, chain, j));
                                    assert(next[j] == chain[j] && next[j + 1] == chain[j + 1]);
                                }
                            }
                            chain = next;
                        }
                    },
                    PickupDraw::ExplodeRisk => {
                        let d = draws.peek_bound(bonus_explode_risk as u32);
                        if d as i32 > 1 {
                            if !h_bonus_reload_only && !(0 <= bonus.weapon && (bonus.weapon as usize) < weapons.len()) {
                                assert(pickup_walk(c, init, pre, chain, Err(slot), cap as nat));
                                return Err(slot);
                            }
                            draws.bound(bonus_explode_risk as u32);
                            bonuses.free(slot);
                            let mut w2 = w;
                            worm_pickup_bonus(&mut w2, &bonus, weapons, settings_health, bonus_min_health,
                                h_bonus_reload_only, d);
                            worms.set(wi, w2);
                            proof {
                                let post = BonusWalkState {
                                    worms: worms@, bonuses: bonuses@, wobjects: wobjects@, nobjects: nobjects@,
                                    sobjects: sobjects@, level: *level, tape: draws@,
                                };
                                assert(worms@ == pre.worms.update(wi as int, w2));
                                let next = chain.push(post);
                                assert(pickup_link(c, next, slot as int));
                                assert forall|j: int| 0 <= j < next.len() - 1 implies #[trigger] pickup_link(c, next, j) by {
                                    if j < slot {
                                        assert(pickup_link(c, chain, j));
                                        assert(next[j] == chain[j] && next[j + 1] == chain[j + 1]);
                                    }
                                }
                                chain = next;
                            }
                        } else {
                            if sobjects.len() >= sobjects.capacity() {
                                proof {
                                    lemma_live_count_bound(sobjects@);
                                }
                                assert(pickup_walk(c, init, pre, chain, Err(slot), cap as nat));
                                return Err(slot);
                            }
                            proof {
                                lemma_live_count_bound(sobjects@);
                                assert(!all_live(sobjects@));
                                assert(bonus == bonuses0[slot as int]->0);
                                assert(bonuses0[slot as int] is Some);
                                lemma_blast_ok_frame(sobject_types@[0], spec_ftoi(bonus.x) as i32, spec_ftoi(bonus.y) as i32,
                                    worms0, worms@, wo0, *wobjects, weapons@, no0, *nobjects, nobject_types@, lv0, *level,
                                    *large_sprites, textures@, blood);
                            }
                            draws.bound(bonus_explode_risk as u32);
                            bonuses.free(slot);
                            let bx = ftoi(bonus.x);
                            let by = ftoi(bonus.y);
                            sobject_create(&sobject_types[0], bx, by, w.index, worms, wobjects, weapons, nobjects,
                                nobject_types, level, cossin, large_sprites, textures, sobjects, blood, draws);
                            proof {
                                let post = BonusWalkState {
                                    worms: worms@, bonuses: bonuses@, wobjects: wobjects@, nobjects: nobjects@,
                                    sobjects: sobjects@, level: *level, tape: draws@,
                                };
                                let next = chain.push(post);
                                assert(pickup_link(c, next, slot as int));
                                assert forall|j: int| 0 <= j < next.len() - 1 implies #[trigger] pickup_link(c, next, j) by {
                                    if j < slot {
                                        assert(pickup_link(c, chain, j));
                                        assert(next[j] == chain[j] && next[j + 1] == chain[j + 1]);
                                    }
                                }
                                chain = next;
                            }
                        }
                    },
                }
            },
        }
        slot += 1;
    }
    assert(pickup_walk(c, init, chain.last(), chain, Ok(()), cap as nat));
    Ok(())
}

// ---------------------------------------------------------------------------
// The bonus tick walk
// ---------------------------------------------------------------------------

/// The settings and tables of a bonus tick.
pub struct BonusRules {
    pub weapons: Seq<Weapon>,
    pub nobject_types: Seq<NObjectType>,
    pub sobject_types: Seq<SObjectType>,
    pub cossin: Seq<Vec2>,
    pub large_sprites: SpriteSet,
    pub textures: Seq<Texture>,
    pub blood: i32,
    pub gravity: i32,
    pub bounce_mul: i32,
    pub bounce_div: i32,
    pub s_objects: Seq<i32>,
}

/// A bonus after one tick of [`bonus_fall`]: moved by its velocity, its
/// velocity fallen and bounced ([`fallen_vel`]), its timer one lower.
pub open spec fn processed_bonus(b: Bonus, level: LevelSim, gravity: i32, mul: i32, div: i32) -> Bonus {
    Bonus {
        y: wrapping_add(b.y, b.vel_y),
        vel_y: fallen_vel(b, level, gravity, mul, div),
        timer: wrapping_sub(b.timer, 1),
        ..b
    }
}

/// The explosion object type a bonus of frame `b.frame` creates on expiry.
pub open spec fn expiry_type(c: BonusRules, b: Bonus) -> SObjectType {
    c.sobject_types[c.s_objects[b.frame as int] as int]
}

/// The tick of the bonus at slot `k` of `s` cannot be carried out: it expires
/// and there is no free slot for its explosion.
pub open spec fn bonus_tick_blocked(c: BonusRules, k: int, s: BonusWalkState) -> bool {
    &&& s.bonuses[k] is Some
    &&& processed_bonus(s.bonuses[k]->0, s.level, c.gravity, c.bounce_mul, c.bounce_div).timer <= 0
    &&& all_live(s.sobjects)
}

/// The tick of the bonus at slot `k` takes `pre` to `post`: a live bonus is
/// [`processed_bonus`] and written back; one whose timer runs out is freed
/// instead and explodes as its [`expiry_type`] at its new pixel, caused by
/// worm 0 ([`blast`]).
pub open spec fn bonus_tick(c: BonusRules, k: int, pre: BonusWalkState, post: BonusWalkState) -> bool {
    if !(pre.bonuses[k] is Some) {
        post == pre
    } else {
        let b = pre.bonuses[k]->0;
        let b1 = processed_bonus(b, pre.level, c.gravity, c.bounce_mul, c.bounce_div);
        if b1.timer > 0 {
            post == BonusWalkState { bonuses: pre.bonuses.update(k, Some(b1)), ..pre }
        } else {
            let st = expiry_type(c, b);
            let x = spec_ftoi(b.x) as i32;
            let y = spec_ftoi(b1.y) as i32;
            let bl = blast(st, x, y, 0, pre.worms, pre.wobjects, c.weapons, pre.nobjects, c.nobject_types,
                pre.level, c.cossin, c.textures, c.blood, pre.tape);
            &&& post.worms == bl.worms
            &&& post.wobjects == bl.wobjects
            &&& post.nobjects == bl.nobjects
            &&& post.tape == bl.tape
            &&& post.bonuses == pre.bonuses.update(k, None)
            &&& exists|i: int| is_lowest_free(pre.sobjects, i)
                && post.sobjects == pre.sobjects.update(i, Some(new_sobject(st, x, y)))
            &&& cratered(pre.level, post.level, c.large_sprites, c.textures[st.dirt_effect as int],
                c.textures[st.dirt_effect as int].sframe + bl.fill, x - 7, y - 7, st.dirt_effect >= 0)
        }
    }
}

/// Link `j` of a tick walk: slot `j` was not blocked and its tick took state
/// `j` to state `j + 1`.
pub open spec fn bonus_tick_link(c: BonusRules, chain: Seq<BonusWalkState>, j: int) -> bool {
    &&& !bonus_tick_blocked(c, j, chain[j])
    &&& bonus_tick(c, j, chain[j], chain[j + 1])
}

/// `chain` walks from `init` to `last` ticking the bonuses: over all `cap`
/// slots when `r` is `Ok`, or up to the blocked slot `k` when `r` is `Err(k)`.
pub open spec fn bonus_tick_walk(
    c: BonusRules,
    init: BonusWalkState,
    last: BonusWalkState,
    chain: Seq<BonusWalkState>,
    r: Result<(), usize>,
    cap: nat,
) -> bool {
    &&& forall|j: int| 0 <= j < chain.len() - 1 ==> #[trigger] bonus_tick_link(c, chain, j)
    &&& chain.len() > 0
    &&& chain[0] == init
    &&& chain.last() == last
    &&& match r {
        Ok(()) => chain.len() == cap + 1,
        Err(k) => chain.len() == k + 1 && k < cap && bonus_tick_blocked(c, k as int, last),
    }
}

/// Every live bonus of `bonuses` that expires this tick has a frame with an
/// explosion type, and its explosion meets [`blast_ok`].
pub open spec fn expiries_ok(
    c: BonusRules,
    bonuses: Seq<Option<Bonus>>,
    worms: Seq<WormState>,
    wobjects: Pool<WObject>,
    nobjects: Pool<NObject>,
    level: LevelSim,
) -> bool {
    forall|k: int| 0 <= k < bonuses.len() && #[trigger] bonuses[k] is Some
        && wrapping_sub(bonuses[k]->0.timer, 1) <= 0 ==> {
        let b = bonuses[k]->0;
        &&& 0 <= b.frame < 2
        &&& blast_ok(expiry_type(c, b), spec_ftoi(b.x) as i32, spec_ftoi(wrapping_add(b.y, b.vel_y)) as i32,
            worms, wobjects, c.weapons, nobjects, c.nobject_types, level, c.large_sprites, c.textures, c.blood)
    }
}

/// One tick of every bonus, in slot order ([`bonus_tick`]); an expiring
/// bonus's explosion reads its draws from `draws`.
///
/// The walk stops with `Err(k)` before touching anything at the first slot `k`
/// whose tick is [`bonus_tick_blocked`]; otherwise it returns `Ok(())` after
/// the last slot.
pub fn process_bonuses(
    bonuses: &mut Pool<Bonus>,
    level: &mut LevelSim,
    worms: &mut Vec<WormState>,
    wobjects: &mut Pool<WObject>,
    nobjects: &mut Pool<NObject>,
    sobjects: &mut Pool<SObject>,
    weapons: &[Weapon],
    nobject_types: &[NObjectType],
    sobject_types: &[SObjectType],
    cossin: &[Vec2; 128],
    large_sprites: &SpriteSet,
    textures: &[Texture],
    blood: i32,
    bonus_gravity: i32,
    bonus_bounce_mul: i32,
    bonus_bounce_div: i32,
    bonus_s_objects: &[i32; 2],
    draws: &mut Draws,
) -> (r: Result<(), usize>)
    requires
        (exists|k: int| 0 <= k < old(bonuses)@.len() && #[trigger] old(bonuses)@[k] is Some) ==> {
            &&& bonus_bounce_div != 0
            &&& forall|f: int| 0 <= f < 2 ==> 0 <= #[trigger] bonus_s_objects@[f] < sobject_types@.len()
        },
        old(bonuses).wf(),
        old(wobjects).wf(),
        wobjects_typed(old(wobjects)@, weapons@.len() as int),
        old(nobjects).wf(),
        nobjects_typed(old(nobjects)@, nobject_types@.len() as int),
        old(sobjects).wf(),
        old(level).wf(),
        old(draws).wf(),
        expiries_ok(
            (BonusRules {
                weapons: weapons@,
                nobject_types: nobject_types@,
                sobject_types: sobject_types@,
                cossin: cossin@,
                large_sprites: *large_sprites,
                textures: textures@,
                blood,
                gravity: bonus_gravity,
                bounce_mul: bonus_bounce_mul,
                bounce_div: bonus_bounce_div,
                s_objects: bonus_s_objects@,
            }),
            old(bonuses)@, old(worms)@, *old(wobjects), *old(nobjects), *old(level)),
    ensures
        exists|chain: Seq<BonusWalkState>| #[trigger] bonus_tick_walk(
            (BonusRules {
                weapons: weapons@,
                nobject_types: nobject_types@,
                sobject_types: sobject_types@,
                cossin: cossin@,
                large_sprites: *large_sprites,
                textures: textures@,
                blood,
                gravity: bonus_gravity,
                bounce_mul: bonus_bounce_mul,
                bounce_div: bonus_bounce_div,
                s_objects: bonus_s_objects@,
            }),
            (BonusWalkState {
                worms: old(worms)@,
                bonuses: old(bonuses)@,
                wobjects: old(wobjects)@,
                nobjects: old(nobjects)@,
                sobjects: old(sobjects)@,
                level: *old(level),
                tape: old(draws)@,
            }),
            (BonusWalkState {
                worms: final(worms)@,
                bonuses: final(bonuses)@,
                wobjects: final(wobjects)@,
                nobjects: final(nobjects)@,
                sobjects: final(sobjects)@,
                level: *final(level),
                tape: final(draws)@,
            }),
            chain,
            r,
            old(bonuses)@.len(),
        ),
{
    let ghost c = BonusRules {
        weapons: weapons@,
        nobject_types: nobject_types@,
        sobject_types: sobject_types@,
        cossin: cossin@,
        large_sprites: *large_sprites,
        textures: textures@,
        blood,
        gravity: bonus_gravity,
        bounce_mul: bonus_bounce_mul,
        bounce_div: bonus_bounce_div,
        s_objects: bonus_s_objects@,
    };
    let ghost worms0 = worms@;
    let ghost bonuses0 = bonuses@;
    let ghost wo0 = *wobjects;
    let ghost no0 = *nobjects;
    let ghost lv0 = *level;
    let ghost mut chain: Seq<BonusWalkState> = seq![BonusWalkState {
        worms: worms@,
        bonuses: bonuses@,
        wobjects: wobjects@,
        nobjects: nobjects@,
        sobjects: sobjects@,
        level: *level,
        tape: draws@,
    }];
    let ghost init = chain[0];
    let cap = bonuses.capacity();
    let mut slot: usize = 0;
    while slot < cap
        invariant
            slot <= cap,
            cap == bonuses0.len(),
            bonuses@.len() == cap,
            forall|j: int| slot <= j < cap ==> #[trigger] bonuses@[j] == bonuses0[j],
            worms@.len() == worms0.len(),
            forall|i: int| 0 <= i < worms0.len() ==> (#[trigger] worms@[i]).pos == worms0[i].pos,
            (exists|k: int| 0 <= k < bonuses0.len() && #[trigger] bonuses0[k] is Some) ==> {
                &&& bonus_bounce_div != 0
                &&& forall|f: int| 0 <= f < 2 ==> 0 <= #[trigger] bonus_s_objects@[f] < sobject_types@.len()
            },
            bonuses.wf(),
            wobjects.wf(),
            wobjects_typed(wobjects@, weapons@.len() as int),
            nobjects.wf(),
            nobjects@.len() == no0@.len(),
            nobjects_typed(nobjects@, nobject_types@.len() as int),
            sobjects.wf(),
            level.wf(),
            level.width == lv0.width,
            level.height == lv0.height,
            draws.wf(),
            expiries_ok(c, bonuses0, worms0, wo0, no0, lv0),
            c == (BonusRules {
                weapons: weapons@,
                nobject_types: nobject_types@,
                sobject_types: sobject_types@,
                cossin: cossin@,
                large_sprites: *large_sprites,
                textures: textures@,
                blood,
                gravity: bonus_gravity,
                bounce_mul: bonus_bounce_mul,
                bounce_div: bonus_bounce_div,
                s_objects: bonus_s_objects@,
            }),
            chain.len() == slot + 1,
            forall|j: int| 0 <= j < chain.len() - 1 ==> #[trigger] bonus_tick_link(c, chain, j),
            chain[0] == init,
            init == (BonusWalkState {
                worms: old(worms)@,
                bonuses: old(bonuses)@,
                wobjects: old(wobjects)@,
                nobjects: old(nobjects)@,
                sobjects: old(sobjects)@,
                level: *old(level),
                tape: old(draws)@,
            }),
            bonuses0 == old(bonuses)@,
            chain.last() == (BonusWalkState {
                worms: worms@, bonuses: bonuses@, wobjects: wobjects@, nobjects: nobjects@, sobjects: sobjects@,
                level: *level, tape: draws@,
            }),
        decreases cap - slot,
    {
        let ghost pre = chain.last();
        let maybe = bonuses.get(slot);
        match maybe {
            None => {
                proof {
                    let next = chain.push(pre);
                    assert(bonus_tick_link(c, next, slot as int));
                    assert forall|j: int| 0 <= j < next.len() - 1 implies #[trigger] bonus_tick_link(c, next, j) by {
                        if j < slot {
                            assert(bonus_tick_link(c, chain, j));
                            assert(next[j] == chain[j] && next[j + 1] == chain[j + 1]);
                        }
                    }
                    chain = next;
                }
            },
            Some(bref) => {
                let b0 = *bref;
                let mut b = b0;
                assert(pre.bonuses[slot as int] == Some(b0));
                assert(bonuses0[slot as int] == Some(b0));
                assert(bonuses0[slot as int] is Some);
                proof {
                    if wrapping_sub(b0.timer, 1) <= 0 {
                        assert(0 <= b0.frame < 2);
                    }
                }
                let step = bonus_fall(&mut b, true, level, bonus_gravity, bonus_bounce_mul, bonus_bounce_div,
                    bonus_s_objects);
                assert(b == processed_bonus(b0, *level, bonus_gravity, bonus_bounce_mul, bonus_bounce_div));
                match step.expire {
                    None => {
                        match bonuses.get_mut(slot) {
                            Some(r) => {
                                *r = b;
                            },
                            None => {},
                        }
                        proof {
                            let post = BonusWalkState {
                                worms: worms@, bonuses: bonuses@, wobjects: wobjects@, nobjects: nobjects@,
                                sobjects: sobjects@, level: *level, tape: draws@,
                            };
                            let next = chain.push(post);
                            assert(bonus_tick_link(c, next, slot as int));
                            assert forall|j: int| 0 <= j < next.len() - 1 implies #[trigger] bonus_tick_link(c, next, j) by {
                                if j < slot {
                                    assert(bonus_tick_link(c, chain, j));
                                    assert(next[j] == chain[j] && next[j + 1] == chain[j + 1]);
                                }
                            }
                            chain = next;
                        }
                    },
                    Some(e) => {
                        if sobjects.len() >= sobjects.capacity() {
                            proof {
                                lemma_live_count_bound(sobjects@);
                            }
                            assert(bonus_tick_walk(c, init, pre, chain, Err(slot), cap as nat));
                            return Err(slot);
                        }
                        proof {
                            lemma_live_count_bound(sobjects@);
                            assert(!all_live(sobjects@));
                            lemma_blast_ok_frame(expiry_type(c, b0), spec_ftoi(b0.x) as i32,
                                spec_ftoi(wrapping_add(b0.y, b0.vel_y)) as i32, worms0, worms@, wo0, *wobjects,
                                weapons@, no0, *nobjects, nobject_types@, lv0, *level, *large_sprites, textures@, blood);
                        }
                        let (t, x, y) = e;
                        sobject_create(&sobject_types[t as usize], x, y, 0, worms, wobjects, weapons, nobjects,
                            nobject_types, level, cossin, large_sprites, textures, sobjects, blood, draws);
                        bonuses.free(slot);
                        proof {
                            let post = BonusWalkState {
                                worms: worms@, bonuses: bonuses@, wobjects: wobjects@, nobjects: nobjects@,
                                sobjects: sobjects@, level: *level, tape: draws@,
                            };
                            let next = chain.push(post);
                            assert(bonus_tick_link(c, next, slot as int));
                            assert forall|j: int| 0 <= j < next.len() - 1 implies #[trigger] bonus_tick_link(c, next, j) by {
                                if j < slot {
                                    assert(bonus_tick_link(c, chain, j));
                                    assert(next[j] == chain[j] && next[j + 1] == chain[j + 1]);
                                }
                            }
                            chain = next;
                        }
                    },
                }
            },
        }
        slot += 1;
    }
    assert(bonus_tick_walk(c, init, chain.last(), chain, Ok(()), cap as nat));
    Ok(())
}

// ---------------------------------------------------------------------------
// Creating a bonus
// ---------------------------------------------------------------------------

/// The settings and tables of a bonus creation.
pub struct CreateRules {
    pub weapons: Seq<Weapon>,
    pub nobject_types: Seq<NObjectType>,
    pub sobject_types: Seq<SObjectType>,
    pub cossin: Seq<Vec2>,
    pub large_sprites: SpriteSet,
    pub textures: Seq<Texture>,
    pub blood: i32,
    pub max_bonuses: i32,
    pub rect_w: i32,
    pub rect_h: i32,
    pub rect_x: i32,
    pub rect_y: i32,
    pub h_spawn_rect: bool,
    pub only_health: bool,
    pub only_weapon: bool,
    pub rand_timer: [[i32; 2]; 2],
    pub weap_table: Seq<i32>,
}

/// The candidate pixel of a placement draw pair.
pub open spec fn candidate(c: CreateRules, dx: u32, dy: u32) -> (i32, i32) {
    if c.h_spawn_rect {
        ((dx + c.rect_x) as i32, (dy + c.rect_y) as i32)
    } else {
        (dx as i32, dy as i32)
    }
}

/// The search for a clear bonus position with `n` trials left: each trial
/// reads a draw below `rect_w` and one below `rect_h` ([`candidate`]) and
/// succeeds when the 5x5 box around it is free of dirt and rock.
pub open spec fn bonus_search(c: CreateRules, level: LevelSim, t: DrawTape, n: nat) -> (Option<(i32, i32)>, DrawTape)
    decreases n,
{
    if n == 0 {
        (None, t)
    } else {
        let (dx, t1) = tape_bound(t, c.rect_w as u32);
        let (dy, t2) = tape_bound(t1, c.rect_h as u32);
        let (ix, iy) = candidate(c, dx, dy);
        let (x1, y1, x2, y2) = bonus_box(level, ix, iy);
        if dirt_rock_free(level, x1, y1, x2, y2) {
            (Some((ix, iy)), t2)
        } else {
            bonus_search(c, level, t2, (n - 1) as nat)
        }
    }
}

/// The weapon of a weapon bonus: draws below `count` until one is not banned
/// (`table[w] == 2` bans `w`), stopping early when the tape runs short.
pub open spec fn pick_weapon(t: DrawTape, count: u32, table: Seq<i32>) -> (i32, DrawTape)
    decreases t.raw.len() - t.pos + (if t.short { 0int } else { 1int }),
{
    let (w, t1) = tape_bound(t, count);
    if t1.short || !(0 <= w < table.len()) || table[w as int] != 2 {
        (w as i32, t1)
    } else {
        pick_weapon(t1, count, table)
    }
}

/// [`pick_weapon`] after the draw `w` left the tape at `t1`.
pub open spec fn pick_weapon_from(w: u32, t1: DrawTape, count: u32, table: Seq<i32>) -> (i32, DrawTape) {
    if t1.short || !(0 <= w < table.len()) || table[w as int] != 2 {
        (w as i32, t1)
    } else {
        pick_weapon(t1, count, table)
    }
}

/// The frame of the new bonus, and the tape after its draw (made only when
/// no hack forces it).
pub open spec fn frame_pick(c: CreateRules, t: DrawTape) -> (i32, DrawTape) {
    if c.only_health {
        (1, t)
    } else if c.only_weapon {
        (0, t)
    } else {
        let (d, t1) = tape_bound(t, 2);
        (d as i32, t1)
    }
}

/// A bonus creation takes `pre` to `post` with result `r`:
/// - with `max_bonuses` or more live bonuses (the count taken as an `i32`)
///   nothing happens;
/// - else up to 50000 trials search a clear position ([`bonus_search`]); when
///   none is found only the trial draws are read;
/// - else the frame is picked ([`frame_pick`]); a full pool stops there;
/// - else the timer draws below its frame's range and adds its base, a weapon
///   bonus picks its weapon ([`pick_weapon`]), and the bonus is placed at
///   rest in the lowest free slot;
/// - then the spawn flash, explosion type 7 at the bonus pixel caused by
///   worm 0 ([`blast`]), explodes; with no free slot for it the result is
///   `Err(slot of the bonus)` and nothing more happens.
pub open spec fn bonus_created(c: CreateRules, pre: BonusWalkState, post: BonusWalkState, r: Result<(), usize>) -> bool {
    if live_count(pre.bonuses) as i32 >= c.max_bonuses {
        r == Ok::<(), usize>(()) && post == pre
    } else {
        let (found, t1) = bonus_search(c, pre.level, pre.tape, 50000);
        match found {
            None => r == Ok::<(), usize>(()) && post == (BonusWalkState { tape: t1, ..pre }),
            Some((ix, iy)) => {
                let (frame, t2) = frame_pick(c, t1);
                if all_live(pre.bonuses) {
                    r == Ok::<(), usize>(()) && post == (BonusWalkState { tape: t2, ..pre })
                } else {
                    let (td, t3) = tape_bound(t2, c.rand_timer[frame as int][1] as u32);
                    let (weapon, t4) = if frame == 0 {
                        pick_weapon(t3, c.weapons.len() as u32, c.weap_table)
                    } else {
                        (0i32, t3)
                    };
                    let b = Bonus {
                        x: (ix * 65536) as i32,
                        y: (iy * 65536) as i32,
                        vel_y: 0,
                        frame,
                        timer: (td + c.rand_timer[frame as int][0]) as i32,
                        weapon,
                    };
                    let slot = reuse_slot(pre.bonuses);
                    let placed = pre.bonuses.update(slot, Some(b));
                    &&& is_lowest_free(pre.bonuses, slot)
                    &&& if all_live(pre.sobjects) {
                        r == Err::<(), usize>(slot as usize) && post == (BonusWalkState { bonuses: placed, tape: t4, ..pre })
                    } else {
                        let st = c.sobject_types[7];
                        let bl = blast(st, ix, iy, 0, pre.worms, pre.wobjects, c.weapons, pre.nobjects,
                            c.nobject_types, pre.level, c.cossin, c.textures, c.blood, t4);
                        &&& r == Ok::<(), usize>(())
                        &&& post.bonuses == placed
                        &&& post.worms == bl.worms
                        &&& post.wobjects == bl.wobjects
                        &&& post.nobjects == bl.nobjects
                        &&& post.tape == bl.tape
                        &&& exists|i: int| is_lowest_free(pre.sobjects, i)
                            && post.sobjects == pre.sobjects.update(i, Some(new_sobject(st, ix, iy)))
                        &&& cratered(pre.level, post.level, c.large_sprites, c.textures[st.dirt_effect as int],
                            c.textures[st.dirt_effect as int].sframe + bl.fill, ix - 7, iy - 7, st.dirt_effect >= 0)
                    }
                }
            },
        }
    }
}

/// Every candidate pixel fits the fixed-point position and the spawn-box
/// test, and the spawn flash at it meets [`blast_ok`].
pub open spec fn flashes_ok(
    c: CreateRules,
    worms: Seq<WormState>,
    wobjects: Pool<WObject>,
    nobjects: Pool<NObject>,
    level: LevelSim,
) -> bool {
    &&& 0 <= c.rect_w <= 32768
    &&& 0 <= c.rect_h <= 32768
    &&& c.h_spawn_rect ==> {
        &&& -32768 <= c.rect_x <= 32767
        &&& c.rect_x + c.rect_w <= 32768
        &&& -32768 <= c.rect_y <= 32767
        &&& c.rect_y + c.rect_h <= 32768
    }
    &&& forall|dx: u32, dy: u32| #![trigger candidate(c, dx, dy)]
        (dx < c.rect_w || dx == 0) && (dy < c.rect_h || dy == 0) ==> {
            let (ix, iy) = candidate(c, dx, dy);
            blast_ok(c.sobject_types[7], ix, iy, worms, wobjects, c.weapons, nobjects, c.nobject_types, level,
                c.large_sprites, c.textures, c.blood)
        }
}

/// The bonus-drop roll of a tick. When bonuses are disabled or `max_bonuses`
/// is not positive no draw is read and nothing drops; otherwise one draw below
/// `drop_chance` (taken as unsigned) is read, and a bonus drops iff it is 0.
pub fn bonus_drop_roll(disabled: bool, max_bonuses: i32, drop_chance: i32, draws: &mut Draws) -> (r: bool)
    requires
        old(draws).wf(),
    ensures
        final(draws).wf(),
        disabled || max_bonuses <= 0 ==> !r && final(draws)@ == old(draws)@,
        !disabled && max_bonuses > 0 ==> ({
            let (v, t) = tape_bound(old(draws)@, drop_chance as u32);
            r == (v == 0) && final(draws)@ == t
        }),
{
    !disabled && max_bonuses > 0 && draws.bound(drop_chance as u32) == 0
}

/// Creates a bonus ([`bonus_created`]), reading its draws from `draws`.
pub fn create_bonus(
    bonuses: &mut Pool<Bonus>,
    level: &mut LevelSim,
    worms: &mut Vec<WormState>,
    wobjects: &mut Pool<WObject>,
    nobjects: &mut Pool<NObject>,
    sobjects: &mut Pool<SObject>,
    weapons: &[Weapon],
    nobject_types: &[NObjectType],
    sobject_types: &[SObjectType],
    cossin: &[Vec2; 128],
    large_sprites: &SpriteSet,
    textures: &[Texture],
    blood: i32,
    max_bonuses: i32,
    bonus_spawn_rect_w: i32,
    bonus_spawn_rect_h: i32,
    bonus_spawn_rect_x: i32,
    bonus_spawn_rect_y: i32,
    h_bonus_spawn_rect: bool,
    h_bonus_only_health: bool,
    h_bonus_only_weapon: bool,
    bonus_rand_timer: &[[i32; 2]; 2],
    weap_table: &[i32],
    draws: &mut Draws,
) -> (r: Result<(), usize>)
    requires
        old(bonuses).wf(),
        old(wobjects).wf(),
        wobjects_typed(old(wobjects)@, weapons@.len() as int),
        old(nobjects).wf(),
        nobjects_typed(old(nobjects)@, nobject_types@.len() as int),
        old(sobjects).wf(),
        old(level).wf(),
        old(draws).wf(),
        sobject_types@.len() > 7,
        weapons@.len() <= weap_table@.len(),
        1 <= weap_table@.len(),
        weapons@.len() <= u32::MAX,
        forall|f: int| 0 <= f < 2 ==> {
            &&& 0 <= #[trigger] bonus_rand_timer@[f][1]
            &&& bonus_rand_timer@[f][0] + bonus_rand_timer@[f][1] <= i32::MAX
        },
        flashes_ok(
            (CreateRules {
                weapons: weapons@,
                nobject_types: nobject_types@,
                sobject_types: sobject_types@,
                cossin: cossin@,
                large_sprites: *large_sprites,
                textures: textures@,
                blood,
                max_bonuses,
                rect_w: bonus_spawn_rect_w,
                rect_h: bonus_spawn_rect_h,
                rect_x: bonus_spawn_rect_x,
                rect_y: bonus_spawn_rect_y,
                h_spawn_rect: h_bonus_spawn_rect,
                only_health: h_bonus_only_health,
                only_weapon: h_bonus_only_weapon,
                rand_timer: *bonus_rand_timer,
                weap_table: weap_table@,
            }),
            old(worms)@, *old(wobjects), *old(nobjects), *old(level)),
    ensures
        bonus_created(
            (CreateRules {
                weapons: weapons@,
                nobject_types: nobject_types@,
                sobject_types: sobject_types@,
                cossin: cossin@,
                large_sprites: *large_sprites,
                textures: textures@,
                blood,
                max_bonuses,
                rect_w: bonus_spawn_rect_w,
                rect_h: bonus_spawn_rect_h,
                rect_x: bonus_spawn_rect_x,
                rect_y: bonus_spawn_rect_y,
                h_spawn_rect: h_bonus_spawn_rect,
                only_health: h_bonus_only_health,
                only_weapon: h_bonus_only_weapon,
                rand_timer: *bonus_rand_timer,
                weap_table: weap_table@,
            }),
            (BonusWalkState {
                worms: old(worms)@,
                bonuses: old(bonuses)@,
                wobjects: old(wobjects)@,
                nobjects: old(nobjects)@,
                sobjects: old(sobjects)@,
                level: *old(level),
                tape: old(draws)@,
            }),
            (BonusWalkState {
                worms: final(worms)@,
                bonuses: final(bonuses)@,
                wobjects: final(wobjects)@,
                nobjects: final(nobjects)@,
                sobjects: final(sobjects)@,
                level: *final(level),
                tape: final(draws)@,
            }),
            r,
        ),
{
    let ghost c = CreateRules {
        weapons: weapons@,
        nobject_types: nobject_types@,
        sobject_types: sobject_types@,
        cossin: cossin@,
        large_sprites: *large_sprites,
        textures: textures@,
        blood,
        max_bonuses,
        rect_w: bonus_spawn_rect_w,
        rect_h: bonus_spawn_rect_h,
        rect_x: bonus_spawn_rect_x,
        rect_y: bonus_spawn_rect_y,
        h_spawn_rect: h_bonus_spawn_rect,
        only_health: h_bonus_only_health,
        only_weapon: h_bonus_only_weapon,
        rand_timer: *bonus_rand_timer,
        weap_table: weap_table@,
    };
    let ghost t0 = draws@;
    let n = bonuses.len();
    if n as i32 >= max_bonuses {
        return Ok(());
    }
    let mut trial: u32 = 0;
    let mut found: Option<(i32, i32)> = None;
    while trial < 50000
        invariant_except_break
            found is None,
            bonus_search(c, *level, t0, 50000) == bonus_search(c, *level, draws@, (50000 - trial) as nat),
        invariant
            trial <= 50000,
            draws.wf(),
            level.wf(),
            0 <= bonus_spawn_rect_w <= 32768,
            0 <= bonus_spawn_rect_h <= 32768,
            h_bonus_spawn_rect ==> {
                &&& -32768 <= bonus_spawn_rect_x <= 32767
                &&& bonus_spawn_rect_x + bonus_spawn_rect_w <= 32768
                &&& -32768 <= bonus_spawn_rect_y <= 32767
                &&& bonus_spawn_rect_y + bonus_spawn_rect_h <= 32768
            },
            c.rect_w == bonus_spawn_rect_w,
            c.rect_h == bonus_spawn_rect_h,
            c.rect_x == bonus_spawn_rect_x,
            c.rect_y == bonus_spawn_rect_y,
            c.h_spawn_rect == h_bonus_spawn_rect,
        ensures
            draws.wf(),
            bonus_search(c, *level, t0, 50000) == (found, draws@),
            found is Some ==> ({
                let (ix, iy) = found->0;
                &&& -32768 <= ix <= 32767
                &&& -32768 <= iy <= 32767
                &&& exists|dx: u32, dy: u32| (dx < c.rect_w || dx == 0) && (dy < c.rect_h || dy == 0)
                    && #[trigger] candidate(c, dx, dy) == (ix, iy)
            }),
        decreases 50000 - trial,
    {
        let ghost tt = draws@;
        let dx = draws.bound(bonus_spawn_rect_w as u32);
        let dy = draws.bound(bonus_spawn_rect_h as u32);
        proof {
            lemma_tape_bound_below(tt, bonus_spawn_rect_w as u32);
            lemma_tape_bound_below(tape_bound(tt, bonus_spawn_rect_w as u32).1, bonus_spawn_rect_h as u32);
        }
        let mut ix = dx as i32;
        let mut iy = dy as i32;
        if h_bonus_spawn_rect {
            ix = ix + bonus_spawn_rect_x;
            iy = iy + bonus_spawn_rect_y;
        }
        assert((ix, iy) == candidate(c, dx, dy));
        if check_bonus_spawn_position(level, ix, iy) {
            found = Some((ix, iy));
            assert((dx < c.rect_w || dx == 0) && (dy < c.rect_h || dy == 0));
            break;
        }
        trial += 1;
    }
    match found {
        None => {
            return Ok(());
        },
        Some((ix, iy)) => {
            let ghost t1 = draws@;
            let frame: i32 = if h_bonus_only_health {
                1
            } else if h_bonus_only_weapon {
                0
            } else {
                let d = draws.bound(2);
                d as i32
            };
            proof {
                lemma_tape_bound_below(t1, 2);
            }
            let ghost t2 = draws@;
            let ghost b0 = bonuses@;
            proof {
                lemma_live_count_bound(b0);
            }
            if bonuses.len() >= bonuses.capacity() {
                return Ok(());
            }
            let fi = frame as usize;
            let td = draws.bound(bonus_rand_timer[fi][1] as u32);
            proof {
                lemma_tape_bound_below(t2, bonus_rand_timer@[frame as int][1] as u32);
            }
            let ghost t3 = draws@;
            let mut weapon: i32 = 0;
            if frame == 0 {
                let count = weapons.len() as u32;
                let mut w = draws.bound(count);
                proof {
                    lemma_tape_bound_below(t3, count);
                    draws.lemma_pos_in_range();
                }
                loop
                    invariant
                        draws.wf(),
                        count == weapons@.len(),
                        weapons@.len() <= weap_table@.len(),
                        1 <= weap_table@.len(),
                        count > 0 ==> w < count,
                        count == 0 ==> w == 0,
                        pick_weapon(t3, count, weap_table@) == pick_weapon_from(w, draws@, count, weap_table@),
                    ensures
                        draws.wf(),
                        pick_weapon(t3, count, weap_table@) == (w as i32, draws@),
                    decreases draws@.raw.len() - draws@.pos + (if draws@.short { 0int } else { 1int }),
                {
                    if draws.is_short() || weap_table[w as usize] != 2 {
                        break;
                    }
                    proof {
                        draws.lemma_pos_in_range();
                    }
                    let ghost tw = draws@;
                    w = draws.bound(count);
                    proof {
                        lemma_tape_bound_below(tw, count);
                        draws.lemma_pos_in_range();
                    }
                }
                weapon = w as i32;
            }
            let ghost t4 = draws@;
            let b = Bonus {
                x: itof(ix),
                y: itof(iy),
                vel_y: 0,
                frame,
                timer: td as i32 + bonus_rand_timer[fi][0],
                weapon,
            };
            let placed = bonuses.spawn(b);
            let slot = match placed {
                Some(i) => i,
                None => {
                    return Ok(());
                },
            };
            proof {
                let c2 = choose|i: int| is_lowest_free(b0, i);
                lemma_lowest_free_unique(b0, slot as int, c2);
            }
            if sobjects.len() >= sobjects.capacity() {
                proof {
                    lemma_live_count_bound(sobjects@);
                }
                return Err(slot);
            }
            proof {
                lemma_live_count_bound(sobjects@);
            }
            sobject_create(&sobject_types[7], ix, iy, 0, worms, wobjects, weapons, nobjects, nobject_types, level,
                cossin, large_sprites, textures, sobjects, blood, draws);
            Ok(())
        },
    }
}

} // verus!
