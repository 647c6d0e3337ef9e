//! Per-worm tick logic outside physics: the start of the tick, the fire
//! gate, the dead phase, the respawn search and drop-in, the pre-death drip
//! gate, and death.
//!
//! The single steps take their random draws as values; [`begin_respawn`],
//! [`respawn_tick`], [`dead_worm_step`] and [`worm_death_on_tape`] read them
//! from a draw tape, in the order the steps use them. A respawn trial draws
//! the candidate x below the spawn rectangle's width, then y below its height.
//! Completing a respawn draws the dirt puff's fill frame, then one raw 32-bit
//! value whose low bit picks the facing. Death draws its sound below 3 first,
//! then for each blood particle an angle below 128 and its spawn draws, then
//! for each of the eight gibs an angle offset below 14 and its spawn draws.

use vstd::prelude::*;
use crate::blit::{carved, crater_ok, cratered, draw_dirt_effect, in_dirt_window, SpriteSet, Texture};
use crate::fixed::{ftoi, itof, lemma_ftoi_range, spec_ftoi, trunc_div, vec_div, Vec2};
use crate::draws::{lemma_tape_bound_below, tape_bound, tape_next, DrawTape, Draws};
use crate::nobject::{
    draw_spawn1, draw_spawn2, launch_draws_fit, lemma_read_spawn1_fits, lemma_read_spawn2_fits, new_nobject, new_nobject2,
    nobject_create1, nobject_create2, read_spawn1, read_spawn2, scatter1, spawn1_type_ok, spawn2_type_ok, SpawnDraws,
};
use crate::object_types::NObjectType;
use crate::pool::{reused, Pool};
use crate::state::{
    check_respawn_position, has_flag, limit_xy, respawn_box, respawn_too_close, rock_free, word_bit,
    ControlState, LevelSim, NObject, WormState, KILLED_TIMER_INITIAL, MAT_BACKGROUND, NUM_WEAPONS,
};

verus! {

// ---------------------------------------------------------------------------
// Tick start, fire gate, dead phase
// ---------------------------------------------------------------------------

/// Starts a worm's tick: caps its health at `settings_health`, and returns
/// whether it still has lives (a worm without lives does nothing more).
pub fn worm_tick_start(w: &mut WormState, settings_health: i32) -> (r: bool)
    ensures
        *final(w) == (WormState {
            health: if old(w).health < settings_health { old(w).health } else { settings_health },
            ..*old(w)
        }),
        r == (old(w).lives > 0),
{
    if w.health > settings_health {
        w.health = settings_health;
    }
    w.lives > 0
}

/// A visible worm may fire when Fire is held, Change is not, and its current
/// weapon has finished loading and its fire delay has run out.
pub open spec fn may_fire(w: WormState) -> bool {
    &&& word_bit(w.control_states.word(), ControlState::FIRE)
    &&& !word_bit(w.control_states.word(), ControlState::CHANGE)
    &&& w.weapons[w.current_weapon as int].loading_left == 0
    &&& w.weapons[w.current_weapon as int].delay_left <= 0
}

/// Whether the worm fires this tick; see [`may_fire`].
pub fn fire_gate(w: &WormState) -> (r: bool)
    requires
        0 <= w.current_weapon < NUM_WEAPONS,
    ensures
        r == may_fire(*w),
{
    let cw = w.current_weapon as usize;
    w.control_states.get(ControlState::FIRE)
        && !w.control_states.get(ControlState::CHANGE)
        && w.weapons[cw].available()
        && w.weapons[cw].delay_left <= 0
}

/// A worm that could not move becomes movable again once neither Left nor
/// Right is held.
pub fn movable_reset(w: &mut WormState)
    ensures
        *final(w) == (WormState {
            movable: old(w).movable
                || (!word_bit(old(w).control_states.word(), ControlState::LEFT)
                    && !word_bit(old(w).control_states.word(), ControlState::RIGHT)),
            ..*old(w)
        }),
{
    if !w.movable && !w.control_states.get(ControlState::LEFT) && !w.control_states.get(ControlState::RIGHT) {
        w.movable = true;
    }
}

/// One dead tick takes `w0` to `w1`: it steers nothing, a Fire press is
/// consumed and makes it ready to respawn, and the respawn countdown runs
/// down to zero.
pub open spec fn dead_ticked(w0: WormState, w1: WormState) -> bool {
    &&& w1.control_states.word() == w0.control_states.word() & !(1u32 << ControlState::FIRE)
    &&& w1.ready == (w0.ready || word_bit(w0.control_states.word(), ControlState::FIRE))
    &&& w1.killed_timer == if w0.killed_timer > 0 { w0.killed_timer - 1 } else { w0.killed_timer as int }
    &&& w1 == (WormState {
        steerable_count: 0,
        control_states: w1.control_states,
        ready: w1.ready,
        killed_timer: w1.killed_timer,
        ..w0
    })
}

/// One tick of a dead worm before its respawn steps: it steers nothing, a
/// Fire press is consumed and makes it ready to respawn, and the respawn
/// countdown runs down. Returns whether the countdown has just reached zero,
/// so that the respawn search starts.
pub fn dead_worm_tick(w: &mut WormState) -> (r: bool)
    ensures
        dead_ticked(*old(w), *final(w)),
        r == (final(w).killed_timer == 0),
{
    w.steerable_count = 0;
    let fire = w.control_states.pressed_once(ControlState::FIRE);
    if fire {
        w.ready = true;
    }
    if w.killed_timer > 0 {
        w.killed_timer = w.killed_timer - 1;
    }
    w.killed_timer == 0
}

// ---------------------------------------------------------------------------
// Respawn
// ---------------------------------------------------------------------------

/// The worm's death pixel and the enemy pixel its respawn keeps away from:
/// with exactly two worms the other worm's current pixel, else the death pixel.
pub open spec fn respawn_anchor(worms: Seq<WormState>, index: int) -> (i32, i32, i32, i32) {
    let w = worms[index];
    let tx = spec_ftoi(w.pos.x) as i32;
    let ty = spec_ftoi(w.pos.y) as i32;
    if worms.len() == 2 {
        let e = worms[1 - index];
        (tx, ty, spec_ftoi(e.pos.x) as i32, spec_ftoi(e.pos.y) as i32)
    } else {
        (tx, ty, tx, ty)
    }
}

/// Starts the respawn search of worm `index`: its drop-in cursor starts 80
/// pixels up and left of its death pixel. Returns the death pixel and the
/// enemy pixel ([`respawn_anchor`]) for the trials.
pub fn start_respawn(worms: &mut Vec<WormState>, index: usize) -> (r: (i32, i32, i32, i32))
    requires
        index < old(worms)@.len(),
        old(worms)@.len() == 2 ==> index < 2,
    ensures
        r == respawn_anchor(old(worms)@, index as int),
        final(worms)@ == old(worms)@.update(index as int, WormState {
            logic_respawn: Vec2 { x: (r.0 - 80) as i32, y: (r.1 - 80) as i32 },
            ..old(worms)@[index as int]
        }),
{
    let mut w = worms[index];
    let temp_x = ftoi(w.pos.x);
    let temp_y = ftoi(w.pos.y);
    w.logic_respawn = Vec2::new(temp_x - 80, temp_y - 80);
    let mut enemy_x = temp_x;
    let mut enemy_y = temp_y;
    if worms.len() == 2 {
        let other = if index == 0 { 1 } else { 0 };
        enemy_x = ftoi(worms[other].pos.x);
        enemy_y = ftoi(worms[other].pos.y);
    }
    worms.set(index, w);
    (temp_x, temp_y, enemy_x, enemy_y)
}

/// The pixel row a worm dropped at `(x, y)` comes to rest on: it slides down
/// while the pixel 4 below it is background and inside the level.
pub open spec fn dropped_row(level: LevelSim, x: int, y: int) -> int
    decreases level.height - y,
{
    if y + 4 < level.height && has_flag(level.flags_xy(x, y + 4), MAT_BACKGROUND) {
        dropped_row(level, x, y + 1)
    } else {
        y
    }
}

/// The trial candidate's column and resting row.
pub open spec fn trial_pixel(level: LevelSim, rect_x: i32, rect_y: i32, draw_x: u32, draw_y: u32) -> (int, int) {
    let x = rect_x + draw_x;
    (x, dropped_row(level, x, rect_y + draw_y))
}

/// One respawn trial of a dead worm. The candidate column is
/// `rect_x + draw_x` and the row `rect_y + draw_y`; the worm moves there and
/// drops down ([`dropped_row`]). The search ends when this is the 50000th
/// trial (`trials` counts the earlier ones) or when the position passes
/// [`check_respawn_position`] against the anchor `(temp, enemy)`; the worm then
/// hands over to the drop-in (its countdown becomes -1). Returns whether the
/// search ended.
pub fn respawn_trial(
    w: &mut WormState,
    level: &LevelSim,
    rect_x: i32,
    rect_y: i32,
    draw_x: u32,
    draw_y: u32,
    anchor: (i32, i32, i32, i32),
    min_spawn_dist_last: i32,
    min_spawn_dist_enemy: i32,
    trials: i32,
) -> (r: bool)
    requires
        level.wf(),
        level.height >= 1,
        level.width <= 32767,
        level.height <= 32767,
        draw_x <= i32::MAX,
        draw_y <= i32::MAX,
        0 <= rect_x + draw_x < level.width,
        -4 <= rect_y + draw_y <= level.height + 3,
        rect_y + draw_y <= 32767,
        -32768 <= anchor.0 <= 32767,
        -32768 <= anchor.1 <= 32767,
        -32768 <= anchor.2 <= 32767,
        -32768 <= anchor.3 <= 32767,
        0 <= trials < 50000,
    ensures
        ({
            let (x, y) = trial_pixel(*level, rect_x, rect_y, draw_x, draw_y);
            let done = trials + 1 >= 50000 || (
                !respawn_too_close(anchor.2, anchor.3, anchor.0, anchor.1, x as i32, y as i32, min_spawn_dist_last, min_spawn_dist_enemy)
                && {
                    let (bx1, bx2, by1, by2) = respawn_box(*level, x as i32, y as i32);
                    rock_free(*level, bx1, bx2, by1, by2)
                });
            &&& r == done
            &&& *final(w) == (WormState {
                pos: Vec2 { x: (x * 65536) as i32, y: (y * 65536) as i32 },
                killed_timer: if done { -1i32 } else { old(w).killed_timer },
                ..*old(w)
            })
        }),
{
    let cand_x = rect_x + draw_x as i32;
    let cand_y = rect_y + draw_y as i32;
    w.pos.x = itof(cand_x);
    let mut y = cand_y;
    while y + 4 < level.height && level.background(cand_x, y + 4)
        invariant
            level.wf(),
            0 <= cand_x < level.width,
            level.height <= 32767,
            cand_y <= y,
            y <= 32767,
            y <= level.height + 3,
            -4 <= y,
            dropped_row(*level, cand_x as int, cand_y as int) == dropped_row(*level, cand_x as int, y as int),
        decreases level.height - y,
    {
        y = y + 1;
    }
    w.pos.y = itof(y);
    proof {
        crate::fixed::lemma_ftoi_itof(cand_x as int);
        crate::fixed::lemma_ftoi_itof(y as int);
    }
    let done = if trials + 1 >= 50000 {
        true
    } else {
        check_respawn_position(level, anchor.2, anchor.3, anchor.0, anchor.1, cand_x, y, min_spawn_dist_last, min_spawn_dist_enemy)
    };
    if done {
        w.killed_timer = -1;
    }
    done
}

/// `v` moved by one toward `d`.
pub open spec fn toward(v: int, d: int) -> int {
    if v < d { v + 1 } else if v > d { v - 1 } else { v }
}

/// `v` moved by up to four toward `d`.
pub open spec fn toward4(v: int, d: int) -> int {
    toward(toward(toward(toward(v, d), d), d), d)
}

/// `v` clamped into `[0, m]`, 0 first.
pub open spec fn clamp0(v: int, m: int) -> int {
    if v < 0 { if 0 > m { m } else { 0 } } else if v > m { m } else { v }
}

/// `v` clamped into `[0, m]` the way the x axis is: 0 first, then `m`.
pub open spec fn clamp_x(v: int, m: int) -> int {
    if v < 0 { 0 } else if v > m { m } else { v }
}

/// The drop-in cursor after one tick: four steps toward the point 80 pixels
/// up and left of the worm's pixel, then clamped into the level less a
/// 158-pixel margin.
pub open spec fn cursor_after(w: WormState, level: LevelSim) -> (int, int) {
    let dx = spec_ftoi(w.pos.x) - 80;
    let dy = spec_ftoi(w.pos.y) - 80;
    (
        clamp_x(toward4(w.logic_respawn.x as int, dx), level.width - 158),
        clamp0(toward4(w.logic_respawn.y as int, dy), level.height - 158),
    )
}

/// The clamped drop-in destination.
pub open spec fn cursor_dest(w: WormState, level: LevelSim) -> (int, int) {
    (
        clamp_x(spec_ftoi(w.pos.x) - 80, level.width - 158),
        clamp0(spec_ftoi(w.pos.y) - 80, level.height - 158),
    )
}

/// One drop-in tick of a worm whose countdown is below zero (a worm with a
/// non-negative countdown is untouched and the result is false): the cursor
/// moves ([`cursor_after`]). Returns whether the respawn completes now: the
/// cursor is within 4 pixels of the destination on both axes and the worm
/// is ready.
pub fn do_respawning(w: &mut WormState, level: &LevelSim) -> (r: bool)
    requires
        level.wf(),
    ensures
        old(w).killed_timer >= 0 ==> *final(w) == *old(w) && !r,
        old(w).killed_timer < 0 ==> {
            let (cx, cy) = cursor_after(*old(w), *level);
            let (dx, dy) = cursor_dest(*old(w), *level);
            &&& *final(w) == (WormState { logic_respawn: Vec2 { x: cx as i32, y: cy as i32 }, ..*old(w) })
            &&& r == (dx - 5 < cx < dx + 5 && dy - 5 < cy < dy + 5 && old(w).ready)
        },
{
    if w.killed_timer >= 0 {
        return false;
    }
    let ghost w0 = *w;
    let dest_x = ftoi(w.pos.x) - 80;
    let dest_y = ftoi(w.pos.y) - 80;
    let mut lx = w.logic_respawn.x;
    let mut ly = w.logic_respawn.y;
    let mut k: u32 = 0;
    while k < 4
        invariant
            k <= 4,
            -32848 <= dest_x <= 32687,
            -32848 <= dest_y <= 32687,
            lx as int == if k == 0 { w0.logic_respawn.x as int } else if k == 1 { toward(w0.logic_respawn.x as int, dest_x as int) }
                else if k == 2 { toward(toward(w0.logic_respawn.x as int, dest_x as int), dest_x as int) }
                else if k == 3 { toward(toward(toward(w0.logic_respawn.x as int, dest_x as int), dest_x as int), dest_x as int) }
                else { toward4(w0.logic_respawn.x as int, dest_x as int) },
            ly as int == if k == 0 { w0.logic_respawn.y as int } else if k == 1 { toward(w0.logic_respawn.y as int, dest_y as int) }
                else if k == 2 { toward(toward(w0.logic_respawn.y as int, dest_y as int), dest_y as int) }
                else if k == 3 { toward(toward(toward(w0.logic_respawn.y as int, dest_y as int), dest_y as int), dest_y as int) }
                else { toward4(w0.logic_respawn.y as int, dest_y as int) },
        decreases 4 - k,
    {
        if lx < dest_x {
            lx = lx + 1;
        } else if lx > dest_x {
            lx = lx - 1;
        }
        if ly < dest_y {
            ly = ly + 1;
        } else if ly > dest_y {
            ly = ly - 1;
        }
        k += 1;
    }
    limit_xy(&mut lx, &mut ly, level.width - 158, level.height - 158);
    w.logic_respawn = Vec2::new(lx, ly);
    let mut dx = dest_x;
    let mut dy = dest_y;
    limit_xy(&mut dx, &mut dy, level.width - 158, level.height - 158);
    lx < dx + 5 && lx > dx - 5 && ly < dy + 5 && ly > dy - 5 && w.ready
}

/// Completes a respawn: a dirt puff (dirt effect 0, fill frame drawn as
/// `fill_draw`) 7 pixels up and left of the worm's pixel, then the worm is
/// revived visible at rest with full health and its fire cone closed, no
/// longer ready, facing left-up (angle 32, direction 0) when the raw draw
/// `facing_draw` is odd and right-up (angle 96, direction 1) when it is even.
pub fn complete_respawn(
    w: &mut WormState,
    level: &mut LevelSim,
    large_sprites: &SpriteSet,
    textures: &[Texture],
    settings_health: i32,
    fill_draw: u32,
    facing_draw: u32,
)
    requires
        old(level).wf(),
        large_sprites.wf(),
        large_sprites.frame_len() >= 256,
        textures@.len() > 0,
        0 <= textures@[0].mframe < large_sprites.count,
        fill_draw <= i32::MAX,
        0 <= textures@[0].sframe + fill_draw < large_sprites.count,
    ensures
        final(level).width == old(level).width,
        final(level).height == old(level).height,
        final(level).material_flags == old(level).material_flags,
        final(level).material_id@.len() == old(level).material_id@.len(),
        ({
            let px = spec_ftoi(old(w).pos.x) - 7;
            let py = spec_ftoi(old(w).pos.y) - 7;
            forall|mx: int, my: int| #[trigger] old(level).in_bounds(mx, my) ==>
                final(level).material_id@[old(level).cell(mx, my)] == if in_dirt_window(*old(level), px, py, mx, my) {
                    carved(*old(level), *large_sprites, textures@[0], textures@[0].sframe + fill_draw, px, py, mx, my)
                } else {
                    old(level).material_id@[old(level).cell(mx, my)]
                }
        }),
        *final(w) == (WormState {
            ready: false,
            visible: true,
            fire_cone: 0,
            vel: Vec2 { x: 0, y: 0 },
            health: settings_health,
            aiming_angle: if facing_draw % 2 == 1 { 2097152i32 } else { 6291456i32 },
            direction: if facing_draw % 2 == 1 { 0 } else { 1 },
            ..*old(w)
        }),
{
    let ipos_x = ftoi(w.pos.x);
    let ipos_y = ftoi(w.pos.y);
    draw_dirt_effect(level, large_sprites, textures, 0, ipos_x - 7, ipos_y - 7, fill_draw);
    w.ready = false;
    w.visible = true;
    w.fire_cone = 0;
    w.vel = Vec2::zero();
    w.health = settings_health;
    assert((facing_draw & 1 != 0) == (facing_draw % 2 == 1)) by (bit_vector);
    if facing_draw & 1 != 0 {
        w.aiming_angle = itof(32);
        w.direction = 0;
    } else {
        w.aiming_angle = itof(96);
        w.direction = 1;
    }
}

// ---------------------------------------------------------------------------
// Drip and death
// ---------------------------------------------------------------------------

/// Whether a visible worm under a quarter of full health rolls for a blood
/// drip this tick (a draw below `health + 6`; on 0 a draw below 3 picks
/// whether a sound plays, and drawing its index below 3 when it does, then
/// one blood object spawns with the first scatter form).
pub fn drips(w: &WormState, settings_health: i32) -> (r: bool)
    ensures
        r == (w.health < trunc_div(settings_health as int, 4)),
{
    w.health < settings_health / 4
}

/// The blood drip of worm `w` (slot `index`) this tick, reading `t`: under a
/// quarter of full health it draws below `health + 6`; on 0 it draws below
/// three for the sound, and once more below three for its index after a zero,
/// then spawns one object of `blood_ty` at the worm with its velocity, colour
/// 0 and the first scatter form ([`read_spawn1`], [`scatter1`]).
pub open spec fn dripped(
    w: WormState,
    index: i32,
    settings_health: i32,
    blood_ty: NObjectType,
    s: Seq<Option<NObject>>,
    t: DrawTape,
) -> (Seq<Option<NObject>>, DrawTape) {
    if !(w.health < trunc_div(settings_health as int, 4)) {
        (s, t)
    } else {
        let (roll, t1) = tape_bound(t, (w.health + 6) as u32);
        if roll != 0 {
            (s, t1)
        } else {
            let (gate, t2) = tape_bound(t1, 3);
            let t3 = if gate == 0 { tape_bound(t2, 3).1 } else { t2 };
            let (d, t4) = read_spawn1(blood_ty, t3);
            (reused(s, new_nobject(blood_ty, scatter1(blood_ty, w.vel, d), w.pos, 0, index, d)), t4)
        }
    }
}

/// The pre-death blood drip of a visible worm ([`dripped`], with the blood
/// type `nobject_types[6]`).
pub fn worm_pre_death_drip(
    w: &WormState,
    index: i32,
    settings_health: i32,
    nobject_types: &[NObjectType],
    draws: &mut Draws,
    nobjects: &mut Pool<NObject>,
)
    requires
        old(draws).wf(),
        old(nobjects).wf(),
        old(nobjects)@.len() > 0,
        nobject_types@.len() > 6,
        spawn1_type_ok(nobject_types@[6]),
    ensures
        final(draws).wf(),
        final(nobjects).wf(),
        (final(nobjects)@, final(draws)@)
            == dripped(*w, index, settings_health, nobject_types@[6], old(nobjects)@, old(draws)@),
{
    if drips(w, settings_health) {
        let roll = draws.bound((w.health + 6) as u32);
        if roll == 0 {
            let gate = draws.bound(3);
            if gate == 0 {
                draws.bound(3);
            }
            let ty = &nobject_types[6];
            let ghost t3 = draws@;
            proof {
                lemma_read_spawn1_fits(*ty, t3);
            }
            let d = draw_spawn1(ty, draws);
            nobject_create1(ty, w.vel, w.pos, 0, index, &d, nobjects);
        }
    }
}

/// The pool after spawning, in order, one object of type `ty` per angle and
/// draw, each launched from `pos` with base velocity `vel`.
pub open spec fn sprayed(
    s: Seq<Option<NObject>>,
    ty: NObjectType,
    vel: Vec2,
    pos: Vec2,
    owner_idx: i32,
    cossin: Seq<Vec2>,
    angles: Seq<int>,
    draws: Seq<SpawnDraws>,
) -> Seq<Option<NObject>>
    decreases draws.len(),
{
    if draws.len() == 0 || angles.len() == 0 {
        s
    } else {
        reused(
            sprayed(s, ty, vel, pos, owner_idx, cossin, angles.drop_last(), draws.drop_last()),
            new_nobject2(ty, angles.last(), vel, pos, 0, owner_idx, cossin, draws.last()),
        )
    }
}

/// The number of blood particles a death sprays: `120 * blood / 100`, and
/// none when that is at most 1.
pub open spec fn death_blood_count(blood: i32) -> int {
    let k = trunc_div(120 * blood, 100);
    if k > 1 { k } else { 0 }
}

/// The gib angles: `7 + 14 * k` plus the drawn offset.
pub open spec fn gib_angles(offsets: Seq<u32>) -> Seq<int> {
    offsets.map(|k: int, d: u32| 7 + 14 * k + d)
}

/// The blood-particle angles: the draws themselves.
pub open spec fn blood_angles(draws: Seq<u32>) -> Seq<int> {
    draws.map_values(|d: u32| d as int)
}

/// What the death of worm `w` (slot `index`) leaves, given its draws: the
/// blood objects and then the gibs sprayed ([`sprayed`]) from its position
/// with a third of its velocity, the last killed worm set to it (and whether
/// that changed), the killer (the last damager unless none or itself), and
/// the worm with its shell drop, green sight, fire cone and rope stopped, one
/// life less, hidden with the respawn countdown armed and its Fire bit
/// cleared.
pub open spec fn died(
    w: WormState,
    index: i32,
    types: Seq<NObjectType>,
    cossin: Seq<Vec2>,
    blood_angle_draws: Seq<u32>,
    blood_draws: Seq<SpawnDraws>,
    gib_offset_draws: Seq<u32>,
    gib_draws: Seq<SpawnDraws>,
    s0: Seq<Option<NObject>>,
    last_killed0: i32,
    w1: WormState,
    s1: Seq<Option<NObject>>,
    last_killed1: i32,
    got_changed1: bool,
    r: Option<usize>,
) -> bool {
    let v3 = vec_div(w.vel, 3);
    let after_blood = sprayed(s0, types[6], v3, w.pos, index, cossin, blood_angles(blood_angle_draws), blood_draws);
    &&& s1 == sprayed(after_blood, types[index as int], v3, w.pos, index, cossin, gib_angles(gib_offset_draws), gib_draws)
    &&& last_killed1 == index
    &&& got_changed1 == (last_killed0 != index)
    &&& r == if w.last_killed_by_idx >= 0 && w.last_killed_by_idx != index {
        Some(w.last_killed_by_idx as usize)
    } else {
        None::<usize>
    }
    &&& w1.control_states.word() == w.control_states.word() & !(1u32 << ControlState::FIRE)
    &&& w1 == (WormState {
        leave_shell_timer: 0,
        make_sight_green: false,
        fire_cone: 0,
        ninjarope: crate::state::Ninjarope { out: false, ..w.ninjarope },
        lives: (w.lives - 1) as i32,
        visible: false,
        killed_timer: KILLED_TIMER_INITIAL,
        control_states: w1.control_states,
        ..w
    })
}

/// The death of worm `index` at or below zero health (a worm above zero is
/// untouched: no draws, result `None`).
///
/// It stops its shell drop and green sight, closes its fire cone and stows its
/// rope, loses a life, becomes the last killed worm (`got_changed` tells
/// whether that changed), is hidden with the respawn countdown armed and its
/// Fire bit cleared. It sprays [`death_blood_count`] blood objects (type 6)
/// and then eight gibs of its own type (type `index`), all from its position
/// with a third of its velocity. Returns the killer whose kill count rises:
/// the last damager, unless none or itself.
pub fn worm_death(
    w: &mut WormState,
    index: i32,
    blood: i32,
    nobject_types: &[NObjectType],
    cossin: &[Vec2; 128],
    blood_angle_draws: &Vec<u32>,
    blood_draws: &Vec<SpawnDraws>,
    gib_offset_draws: &Vec<u32>,
    gib_draws: &Vec<SpawnDraws>,
    nobjects: &mut Pool<NObject>,
    last_killed_idx: &mut i32,
    got_changed: &mut bool,
) -> (r: Option<usize>)
    requires
        old(nobjects).wf(),
        old(nobjects)@.len() > 0,
        old(w).health <= 0 ==> {
            &&& old(w).lives > i32::MIN
            &&& i32::MIN <= 120 * blood <= i32::MAX
            &&& 0 <= index < nobject_types@.len()
            &&& 6 < nobject_types@.len()
            &&& blood_angle_draws@.len() == death_blood_count(blood)
            &&& blood_draws@.len() == death_blood_count(blood)
            &&& gib_offset_draws@.len() == 8
            &&& gib_draws@.len() == 8
            &&& forall|k: int| 0 <= k < blood_angle_draws@.len() ==> #[trigger] blood_angle_draws@[k] < 128
            &&& forall|k: int| 0 <= k < gib_offset_draws@.len() ==> #[trigger] gib_offset_draws@[k] < 14
            &&& forall|k: int| 0 <= k < blood_draws@.len() ==> launch_draws_fit(nobject_types@[6], #[trigger] blood_draws@[k])
            &&& forall|k: int| 0 <= k < gib_draws@.len() ==> launch_draws_fit(nobject_types@[index as int], #[trigger] gib_draws@[k])
        },
    ensures
        old(w).health > 0 ==> {
            &&& *final(w) == *old(w)
            &&& final(nobjects)@ == old(nobjects)@
            &&& *final(last_killed_idx) == *old(last_killed_idx)
            &&& *final(got_changed) == *old(got_changed)
            &&& r is None
        },
        final(nobjects).wf(),
        old(w).health <= 0 ==> died(*old(w), index, nobject_types@, cossin@, blood_angle_draws@, blood_draws@,
            gib_offset_draws@, gib_draws@, old(nobjects)@, *old(last_killed_idx), *final(w), final(nobjects)@,
            *final(last_killed_idx), *final(got_changed), r),
{
    if w.health > 0 {
        return None;
    }
    w.leave_shell_timer = 0;
    w.make_sight_green = false;
    w.fire_cone = 0;
    w.ninjarope.out = false;
    w.lives = w.lives - 1;
    let old_last = *last_killed_idx;
    *last_killed_idx = index;
    *got_changed = old_last != index;
    let killer = if w.last_killed_by_idx >= 0 && w.last_killed_by_idx != index {
        Some(w.last_killed_by_idx as usize)
    } else {
        None
    };
    w.visible = false;
    w.killed_timer = KILLED_TIMER_INITIAL;
    let v3 = w.vel.div(3);
    let pos = w.pos;
    let ghost s0 = nobjects@;
    let ghost ba = blood_angles(blood_angle_draws@);
    let mut i: usize = 0;
    while i < blood_draws.len()
        invariant
            nobjects.wf(),
            nobjects@.len() == s0.len(),
            s0.len() > 0,
            6 < nobject_types@.len(),
            i <= blood_draws@.len(),
            blood_angle_draws@.len() == blood_draws@.len(),
            ba == blood_angles(blood_angle_draws@),
            forall|k: int| 0 <= k < blood_angle_draws@.len() ==> #[trigger] blood_angle_draws@[k] < 128,
            forall|k: int| 0 <= k < blood_draws@.len() ==> launch_draws_fit(nobject_types@[6], #[trigger] blood_draws@[k]),
            nobjects@ == sprayed(s0, nobject_types@[6], v3, pos, index, cossin@, ba.take(i as int), blood_draws@.take(i as int)),
        decreases blood_draws.len() - i,
    {
        let angle = blood_angle_draws[i];
        assert(blood_angle_draws@[i as int] < 128);
        nobject_create2(&nobject_types[6], angle as i32, v3, pos, 0, index, cossin, &blood_draws[i], nobjects);
        assert(ba.take(i + 1).drop_last() =~= ba.take(i as int));
        assert(blood_draws@.take(i + 1).drop_last() =~= blood_draws@.take(i as int));
        i += 1;
    }
    assert(ba.take(i as int) =~= ba);
    assert(blood_draws@.take(i as int) =~= blood_draws@);
    let ghost s1 = nobjects@;
    let ghost ga = gib_angles(gib_offset_draws@);
    let mut k: usize = 0;
    while k < 8
        invariant
            nobjects.wf(),
            nobjects@.len() == s0.len(),
            s0.len() > 0,
            0 <= index < nobject_types@.len(),
            k <= 8,
            gib_offset_draws@.len() == 8,
            gib_draws@.len() == 8,
            ga == gib_angles(gib_offset_draws@),
            forall|j: int| 0 <= j < gib_offset_draws@.len() ==> #[trigger] gib_offset_draws@[j] < 14,
            forall|j: int| 0 <= j < gib_draws@.len() ==> launch_draws_fit(nobject_types@[index as int], #[trigger] gib_draws@[j]),
            nobjects@ == sprayed(s1, nobject_types@[index as int], v3, pos, index, cossin@, ga.take(k as int), gib_draws@.take(k as int)),
        decreases 8 - k,
    {
        let base = 7 + 14 * (k as i32);
        assert(gib_offset_draws@[k as int] < 14);
        let angle = base + gib_offset_draws[k] as i32;
        assert(angle == ga[k as int]);
        nobject_create2(&nobject_types[index as usize], angle, v3, pos, 0, index, cossin, &gib_draws[k], nobjects);
        assert(ga.take(k + 1).drop_last() =~= ga.take(k as int));
        assert(gib_draws@.take(k + 1).drop_last() =~= gib_draws@.take(k as int));
        k += 1;
    }
    assert(ga.take(8) =~= ga);
    assert(gib_draws@.take(8) =~= gib_draws@);
    w.control_states.set(ControlState::FIRE, false);
    killer
}

// ---------------------------------------------------------------------------
// The worm steps that read the draw tape
// ---------------------------------------------------------------------------

/// The rectangle respawn candidates are drawn from: every candidate column
/// lies in the level and every candidate row within 4 pixels of it.
pub open spec fn spawn_rect_ok(level: LevelSim, x: i32, y: i32, w: i32, h: i32) -> bool {
    &&& 0 <= x
    &&& 0 <= w
    &&& x + (if w > 0 { w as int } else { 1 }) <= level.width
    &&& -4 <= y
    &&& 0 <= h
    &&& y + (if h > 0 { h as int } else { 1 }) <= level.height + 4
    &&& y + (if h > 0 { h as int } else { 1 }) <= 32768
    &&& 1 <= level.height
    &&& level.width <= 32767
    &&& level.height <= 32767
}

/// The respawn search from trial `trials` on, reading `t`: each trial draws
/// the column below `rect_w` and then the row below `rect_h` and moves the
/// worm to the candidate's resting pixel ([`trial_pixel`]); the search ends
/// at the 50000th trial or at a position that passes the respawn check
/// against the anchor `(temp, enemy)`, and the worm's countdown then becomes
/// -1.
pub open spec fn respawn_searched(
    level: LevelSim,
    w: WormState,
    rect_x: i32,
    rect_y: i32,
    rect_w: i32,
    rect_h: i32,
    anchor: (i32, i32, i32, i32),
    min_spawn_dist_last: i32,
    min_spawn_dist_enemy: i32,
    t: DrawTape,
    trials: int,
) -> (WormState, DrawTape)
    decreases 50000 - trials,
{
    let (dx, t1) = tape_bound(t, rect_w as u32);
    let (dy, t2) = tape_bound(t1, rect_h as u32);
    let (x, y) = trial_pixel(level, rect_x, rect_y, dx, dy);
    let w1 = WormState { pos: Vec2 { x: (x * 65536) as i32, y: (y * 65536) as i32 }, ..w };
    let done = trials + 1 >= 50000 || (
        !respawn_too_close(anchor.2, anchor.3, anchor.0, anchor.1, x as i32, y as i32, min_spawn_dist_last, min_spawn_dist_enemy)
        && {
            let (bx1, bx2, by1, by2) = respawn_box(level, x as i32, y as i32);
            rock_free(level, bx1, bx2, by1, by2)
        });
    if done {
        (WormState { killed_timer: -1i32, ..w1 }, t2)
    } else {
        respawn_searched(level, w1, rect_x, rect_y, rect_w, rect_h, anchor, min_spawn_dist_last, min_spawn_dist_enemy, t2, trials + 1)
    }
}

/// The respawn search of dead worm `index`, reading its trial draws from
/// `draws`: [`start_respawn`], then trials ([`respawn_searched`]) until one
/// ends the search.
pub fn begin_respawn(
    worms: &mut Vec<WormState>,
    index: usize,
    level: &LevelSim,
    rect_x: i32,
    rect_y: i32,
    rect_w: i32,
    rect_h: i32,
    min_spawn_dist_last: i32,
    min_spawn_dist_enemy: i32,
    draws: &mut Draws,
)
    requires
        index < old(worms)@.len(),
        old(worms)@.len() == 2 ==> index < 2,
        level.wf(),
        spawn_rect_ok(*level, rect_x, rect_y, rect_w, rect_h),
        old(draws).wf(),
    ensures
        final(draws).wf(),
        ({
            let anchor = respawn_anchor(old(worms)@, index as int);
            let w0 = WormState {
                logic_respawn: Vec2 { x: (anchor.0 - 80) as i32, y: (anchor.1 - 80) as i32 },
                ..old(worms)@[index as int]
            };
            let (w1, t) = respawn_searched(*level, w0, rect_x, rect_y, rect_w, rect_h, anchor, min_spawn_dist_last,
                min_spawn_dist_enemy, old(draws)@, 0);
            &&& final(worms)@ == old(worms)@.update(index as int, w1)
            &&& final(draws)@ == t
        }),
{
    let ghost worms0 = worms@;
    let anchor = start_respawn(worms, index);
    proof {
        let w = worms0[index as int];
        lemma_ftoi_range(w.pos.x);
        lemma_ftoi_range(w.pos.y);
        if worms0.len() == 2 {
            lemma_ftoi_range(worms0[1 - index].pos.x);
            lemma_ftoi_range(worms0[1 - index].pos.y);
        }
    }
    let mut w = worms[index];
    let ghost w0 = w;
    let ghost t0 = draws@;
    let mut trials: i32 = 0;
    let mut done = false;
    while !done
        invariant
            level.wf(),
            spawn_rect_ok(*level, rect_x, rect_y, rect_w, rect_h),
            -32768 <= anchor.0 <= 32767,
            -32768 <= anchor.1 <= 32767,
            -32768 <= anchor.2 <= 32767,
            -32768 <= anchor.3 <= 32767,
            draws.wf(),
            0 <= trials < 50000,
            !done ==> respawn_searched(*level, w0, rect_x, rect_y, rect_w, rect_h, anchor, min_spawn_dist_last,
                min_spawn_dist_enemy, t0, 0) == respawn_searched(*level, w, rect_x, rect_y, rect_w, rect_h, anchor,
                min_spawn_dist_last, min_spawn_dist_enemy, draws@, trials as int),
            done ==> respawn_searched(*level, w0, rect_x, rect_y, rect_w, rect_h, anchor, min_spawn_dist_last,
                min_spawn_dist_enemy, t0, 0) == (w, draws@),
        decreases 50000 - trials + (if done { 0int } else { 1int }),
    {
        let ghost t = draws@;
        let ghost wb = w;
        let dx = draws.bound(rect_w as u32);
        let ghost t1 = draws@;
        let dy = draws.bound(rect_h as u32);
        proof {
            lemma_tape_bound_below(t, rect_w as u32);
            lemma_tape_bound_below(t1, rect_h as u32);
        }
        let ended = respawn_trial(&mut w, level, rect_x, rect_y, dx, dy, anchor, min_spawn_dist_last,
            min_spawn_dist_enemy, trials);
        if ended {
            done = true;
        } else {
            trials += 1;
        }
        proof {
            assert(respawn_searched(*level, wb, rect_x, rect_y, rect_w, rect_h, anchor, min_spawn_dist_last,
                min_spawn_dist_enemy, t, if ended { trials as int } else { trials - 1 }) == if ended {
                (w, draws@)
            } else {
                respawn_searched(*level, w, rect_x, rect_y, rect_w, rect_h, anchor, min_spawn_dist_last,
                    min_spawn_dist_enemy, draws@, trials as int)
            });
        }
    }
    worms.set(index, w);
}

/// One drop-in tick takes dead worm `w0`, the level and the tape to `w1`,
/// `level1` and `t1`, with `r` telling whether the respawn completed: a worm
/// still counting down is untouched; otherwise the cursor moves
/// ([`cursor_after`]) and, when it is within 4 pixels of the destination on
/// both axes and the worm is ready, the fill draw below the `rframe` of dirt
/// effect 0 and a raw facing draw are read, the dirt puff is stamped 7 pixels
/// up and left of the worm's pixel, and the worm is revived visible at rest
/// with full health, facing left-up for an odd facing draw and right-up for
/// an even one.
pub open spec fn respawn_ticked(
    w0: WormState,
    level0: LevelSim,
    t0: DrawTape,
    large_sprites: SpriteSet,
    textures: Seq<Texture>,
    settings_health: i32,
    w1: WormState,
    level1: LevelSim,
    t1: DrawTape,
    r: bool,
) -> bool {
    if w0.killed_timer >= 0 {
        w1 == w0 && !r && level1 == level0 && t1 == t0
    } else {
        let (cx, cy) = cursor_after(w0, level0);
        let (dx, dy) = cursor_dest(w0, level0);
        let moved = WormState { logic_respawn: Vec2 { x: cx as i32, y: cy as i32 }, ..w0 };
        let (fill, ta) = tape_bound(t0, textures[0].rframe as u32);
        let (facing, tb) = tape_next(ta);
        &&& r == (dx - 5 < cx < dx + 5 && dy - 5 < cy < dy + 5 && w0.ready)
        &&& !r ==> w1 == moved && level1 == level0 && t1 == t0
        &&& r ==> {
            &&& t1 == tb
            &&& cratered(level0, level1, large_sprites, textures[0], textures[0].sframe + fill,
                spec_ftoi(w0.pos.x) - 7, spec_ftoi(w0.pos.y) - 7, true)
            &&& w1 == (WormState {
                ready: false,
                visible: true,
                fire_cone: 0,
                vel: Vec2 { x: 0, y: 0 },
                health: settings_health,
                aiming_angle: if facing % 2 == 1 { 2097152i32 } else { 6291456i32 },
                direction: if facing % 2 == 1 { 0 } else { 1 },
                ..moved
            })
        }
    }
}

/// One drop-in tick of a dead worm reading its completion draws from
/// `draws`: [`do_respawning`]; when the respawn completes, the fill frame
/// draw below the `rframe` of dirt effect 0 and then one raw value for the
/// facing, and [`complete_respawn`] with them. Returns whether the respawn
/// completed.
pub fn respawn_tick(
    w: &mut WormState,
    level: &mut LevelSim,
    large_sprites: &SpriteSet,
    textures: &[Texture],
    settings_health: i32,
    draws: &mut Draws,
) -> (r: bool)
    requires
        old(level).wf(),
        old(draws).wf(),
        crater_ok(*large_sprites, textures@, 0),
    ensures
        final(draws).wf(),
        respawn_ticked(*old(w), *old(level), old(draws)@, *large_sprites, textures@, settings_health, *final(w),
            *final(level), final(draws)@, r),
{
    let complete = do_respawning(w, level);
    if complete {
        let ghost t0 = draws@;
        let fill = draws.bound(textures[0].rframe as u32);
        proof {
            lemma_tape_bound_below(t0, textures@[0].rframe as u32);
        }
        let facing = draws.next_raw();
        complete_respawn(w, level, large_sprites, textures, settings_health, fill, facing);
    }
    complete
}

/// `n` launches of `ty` read from `t`, in order: each an angle draw below
/// `bound`, then its spawn draws ([`read_spawn2`]).
pub open spec fn read_launches(ty: NObjectType, bound: u32, t: DrawTape, n: nat) -> (Seq<u32>, Seq<SpawnDraws>, DrawTape)
    decreases n,
{
    if n == 0 {
        (Seq::empty(), Seq::empty(), t)
    } else {
        let (a, d, t1) = read_launches(ty, bound, t, (n - 1) as nat);
        let (x, t2) = tape_bound(t1, bound);
        let (sd, t3) = read_spawn2(ty, t2);
        (a.push(x), d.push(sd), t3)
    }
}

/// Reading `n` launches gives `n` angles and `n` spawn draws.
proof fn lemma_read_launches_len(ty: NObjectType, bound: u32, t: DrawTape, n: nat)
    ensures
        read_launches(ty, bound, t, n).0.len() == n,
        read_launches(ty, bound, t, n).1.len() == n,
    decreases n,
{
    if n > 0 {
        lemma_read_launches_len(ty, bound, t, (n - 1) as nat);
    }
}

/// Reads `n` launches ([`read_launches`]).
fn draw_launches(ty: &NObjectType, bound: u32, n: usize, draws: &mut Draws) -> (r: (Vec<u32>, Vec<SpawnDraws>))
    requires
        old(draws).wf(),
        spawn2_type_ok(*ty),
    ensures
        final(draws).wf(),
        (r.0@, r.1@, final(draws)@) == read_launches(*ty, bound, old(draws)@, n as nat),
        bound > 0 ==> forall|k: int| 0 <= k < r.0@.len() ==> #[trigger] r.0@[k] < bound,
        forall|k: int| 0 <= k < r.1@.len() ==> launch_draws_fit(*ty, #[trigger] r.1@[k]),
{
    let ghost t0 = draws@;
    let mut angles: Vec<u32> = Vec::new();
    let mut spawns: Vec<SpawnDraws> = Vec::new();
    let mut k: usize = 0;
    while k < n
        invariant
            k <= n,
            draws.wf(),
            spawn2_type_ok(*ty),
            (angles@, spawns@, draws@) == read_launches(*ty, bound, t0, k as nat),
            bound > 0 ==> forall|j: int| 0 <= j < angles@.len() ==> #[trigger] angles@[j] < bound,
            forall|j: int| 0 <= j < spawns@.len() ==> launch_draws_fit(*ty, #[trigger] spawns@[j]),
        decreases n - k,
    {
        let a = draws.bound(bound);
        let ghost t2 = draws@;
        proof {
            lemma_read_spawn2_fits(*ty, t2);
        }
        let d = draw_spawn2(ty, draws);
        angles.push(a);
        spawns.push(d);
        k += 1;
    }
    (angles, spawns)
}

/// The draws of a death read from `t`: the sound below 3, then
/// [`death_blood_count`] launches of `blood_ty` with angles below 128, then
/// eight launches of `gib_ty` with angle offsets below 14.
pub open spec fn read_death(blood: i32, blood_ty: NObjectType, gib_ty: NObjectType, t: DrawTape)
    -> (Seq<u32>, Seq<SpawnDraws>, Seq<u32>, Seq<SpawnDraws>, DrawTape)
{
    let t1 = tape_bound(t, 3).1;
    let (ba, bd, t2) = read_launches(blood_ty, 128, t1, death_blood_count(blood) as nat);
    let (go, gd, t3) = read_launches(gib_ty, 14, t2, 8);
    (ba, bd, go, gd, t3)
}

/// The death of worm `index` reading its draws from `draws`: a worm above zero
/// health is untouched and reads nothing; otherwise its draws are read
/// ([`read_death`]) and it dies with them ([`died`]).
pub fn worm_death_on_tape(
    w: &mut WormState,
    index: i32,
    blood: i32,
    nobject_types: &[NObjectType],
    cossin: &[Vec2; 128],
    draws: &mut Draws,
    nobjects: &mut Pool<NObject>,
    last_killed_idx: &mut i32,
    got_changed: &mut bool,
) -> (r: Option<usize>)
    requires
        old(draws).wf(),
        old(nobjects).wf(),
        old(nobjects)@.len() > 0,
        old(w).health <= 0 ==> {
            &&& old(w).lives > i32::MIN
            &&& i32::MIN <= 120 * blood <= i32::MAX
            &&& 0 <= index < nobject_types@.len()
            &&& 6 < nobject_types@.len()
            &&& spawn2_type_ok(nobject_types@[6])
            &&& spawn2_type_ok(nobject_types@[index as int])
        },
    ensures
        final(draws).wf(),
        final(nobjects).wf(),
        old(w).health > 0 ==> {
            &&& *final(w) == *old(w)
            &&& final(nobjects)@ == old(nobjects)@
            &&& *final(last_killed_idx) == *old(last_killed_idx)
            &&& *final(got_changed) == *old(got_changed)
            &&& final(draws)@ == old(draws)@
            &&& r is None
        },
        old(w).health <= 0 ==> {
            let (ba, bd, go, gd, t) = read_death(blood, nobject_types@[6], nobject_types@[index as int], old(draws)@);
            &&& final(draws)@ == t
            &&& died(*old(w), index, nobject_types@, cossin@, ba, bd, go, gd, old(nobjects)@, *old(last_killed_idx),
                *final(w), final(nobjects)@, *final(last_killed_idx), *final(got_changed), r)
        },
{
    if w.health > 0 {
        return None;
    }
    draws.bound(3);
    let k = 120 * blood / 100;
    let n_blood: usize = if k > 1 { k as usize } else { 0 };
    let (ba, bd) = draw_launches(&nobject_types[6], 128, n_blood, draws);
    let (go, gd) = draw_launches(&nobject_types[index as usize], 14, 8, draws);
    proof {
        assert(n_blood == death_blood_count(blood));
        lemma_read_launches_len(nobject_types@[6], 128, tape_bound(old(draws)@, 3).1, n_blood as nat);
        lemma_read_launches_len(nobject_types@[index as int], 14,
            read_launches(nobject_types@[6], 128, tape_bound(old(draws)@, 3).1, n_blood as nat).2, 8);
    }
    worm_death(w, index, blood, nobject_types, cossin, &ba, &bd, &go, &gd, nobjects, last_killed_idx, got_changed)
}

/// The tick of dead worm `index`, reading its draws from `draws`: the dead
/// tick ([`dead_ticked`]); when its countdown has just reached zero, the
/// respawn search ([`begin_respawn`]); then the drop-in
/// ([`respawn_ticked`]), which runs on the same tick when the search has just
/// ended. Returns whether the respawn completed.
pub fn dead_worm_step(
    worms: &mut Vec<WormState>,
    index: usize,
    level: &mut LevelSim,
    large_sprites: &SpriteSet,
    textures: &[Texture],
    settings_health: i32,
    rect_x: i32,
    rect_y: i32,
    rect_w: i32,
    rect_h: i32,
    min_spawn_dist_last: i32,
    min_spawn_dist_enemy: i32,
    draws: &mut Draws,
) -> (r: bool)
    requires
        index < old(worms)@.len(),
        old(worms)@.len() == 2 ==> index < 2,
        old(level).wf(),
        spawn_rect_ok(*old(level), rect_x, rect_y, rect_w, rect_h),
        old(draws).wf(),
        crater_ok(*large_sprites, textures@, 0),
    ensures
        final(draws).wf(),
        final(worms)@.len() == old(worms)@.len(),
        forall|j: int| 0 <= j < old(worms)@.len() && j != index ==> #[trigger] final(worms)@[j] == old(worms)@[j],
        exists|w1: WormState, w2: WormState, t1: DrawTape| {
            &&& #[trigger] dead_ticked(old(worms)@[index as int], w1)
            &&& if w1.killed_timer == 0 {
                let ws = old(worms)@.update(index as int, w1);
                let anchor = respawn_anchor(ws, index as int);
                let w0 = WormState {
                    logic_respawn: Vec2 { x: (anchor.0 - 80) as i32, y: (anchor.1 - 80) as i32 },
                    ..w1
                };
                (w2, t1) == respawn_searched(*old(level), w0, rect_x, rect_y, rect_w, rect_h, anchor,
                    min_spawn_dist_last, min_spawn_dist_enemy, old(draws)@, 0)
            } else {
                w2 == w1 && t1 == old(draws)@
            }
            &&& #[trigger] respawn_ticked(w2, *old(level), t1, *large_sprites, textures@, settings_health,
                final(worms)@[index as int], *final(level), final(draws)@, r)
        },
{
    let ghost worms0 = worms@;
    let ghost level0 = *level;
    let ghost t0 = draws@;
    let mut w = worms[index];
    let started = dead_worm_tick(&mut w);
    let ghost w1 = w;
    worms.set(index, w);
    if started {
        begin_respawn(worms, index, level, rect_x, rect_y, rect_w, rect_h, min_spawn_dist_last,
            min_spawn_dist_enemy, draws);
    }
    let ghost w2 = worms@[index as int];
    let ghost t1 = draws@;
    proof {
        if w1.killed_timer == 0 {
            let ws = worms0.update(index as int, w1);
            let anchor = respawn_anchor(ws, index as int);
            let wa = WormState { logic_respawn: Vec2 { x: (anchor.0 - 80) as i32, y: (anchor.1 - 80) as i32 }, ..w1 };
            assert(ws[index as int] == w1);
            assert((w2, t1) == respawn_searched(level0, wa, rect_x, rect_y, rect_w, rect_h, anchor,
                min_spawn_dist_last, min_spawn_dist_enemy, t0, 0));
        } else {
            assert(w2 == w1 && t1 == t0);
        }
    }
    let mut w = worms[index];
    let done = respawn_tick(&mut w, level, large_sprites, textures, settings_health, draws);
    worms.set(index, w);
    assert(dead_ticked(worms0[index as int], w1));
    assert(respawn_ticked(w2, level0, t1, *large_sprites, textures@, settings_health, worms@[index as int], *level,
        draws@, done));
    done
}

} // verus!
