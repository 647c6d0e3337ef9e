//! Non-weapon objects (debris, splinters, blood drops, gibs, shells): the
//! spawn family and the per-tick motion.
//!
//! Random draws are handed in by the caller, made in this order:
//! - the second spawn variant ([`nobject_create2`]) first draws its speed
//!   reduction below `speed_v` (always);
//! - both scatter variants then draw the x and y scatter below
//!   `2 * distribution` (iff `distribution != 0`);
//! - the shared core ([`nobject_create`]) draws the frame below
//!   `num_frames + 1` (iff `start_frame > 0`), then the fuse reduction below
//!   `time_to_explo_v` (iff it is non-zero).
//! A draw the type does not call for is not made and its field is ignored.

use vstd::prelude::*;
use crate::fixed::{
    ftoi, itof, spec_ftoi, spec_wrapping_div, spec_wrapping_neg, vec_add, vec_div, wrapping_div_i32,
    wrapping_neg_i32, scaled_add, Vec2,
};
use crate::draws::{lemma_tape_bound_below, tape_bound, DrawTape, Draws};
use crate::blit::{crater_ok, cratered, draw_dirt_effect, SpriteSet, Texture};
use crate::object_types::{NObjectType, SObjectType, Weapon};
use crate::sobject::{blast, blast_ok, new_sobject, sobject_create};
use crate::pool::{is_lowest_free, reused, Pool};
use crate::state::{has_flag, LevelSim, NObject, SObject, WObject, WormState, MAT_DIRT_ROCK};
use vstd::wrapping::i32_specs::{wrapping_add, wrapping_mul, wrapping_sub};

verus! {

/// The draws of one spawn; see the module documentation for which are made.
#[derive(Clone, Copy, PartialEq, Eq, Debug, Default)]
pub struct SpawnDraws {
    /// Below `speed_v`.
    pub speed: u32,
    /// Below `2 * distribution`, for the x component.
    pub dist_x: u32,
    /// Below `2 * distribution`, for the y component.
    pub dist_y: u32,
    /// Below `num_frames + 1`.
    pub frame: u32,
    /// Below `time_to_explo_v`.
    pub explo: u32,
}

/// The object the shared spawn core creates: the type's frame (a draw when
/// `start_frame > 0`, else `color` when non-zero, else the type's bullet
/// colour) and its fuse (lowered by a draw when `time_to_explo_v != 0`).
pub open spec fn new_nobject(ty: NObjectType, vel: Vec2, pos: Vec2, color: i32, owner_idx: i32, d: SpawnDraws) -> NObject {
    NObject {
        pos,
        vel,
        ty: Some(ty.id),
        owner_idx,
        cur_frame: if ty.start_frame > 0 {
            d.frame as i32
        } else if color != 0 {
            color
        } else {
            ty.color_bullets
        },
        time_left: if ty.time_to_explo_v != 0 {
            (ty.time_to_explo - d.explo as i32) as i32
        } else {
            ty.time_to_explo
        },
    }
}

/// The draws fit the `i32` arithmetic of the shared core.
pub open spec fn core_draws_fit(ty: NObjectType, d: SpawnDraws) -> bool {
    ty.time_to_explo_v != 0 ==> i32::MIN <= ty.time_to_explo - d.explo as i32 <= i32::MAX
}

/// Spawns the object of type `ty` at `pos` with velocity `vel` (see
/// [`new_nobject`]) into the lowest free slot, or over the last slot when the
/// pool is full, and returns the slot.
pub fn nobject_create(
    ty: &NObjectType,
    vel: Vec2,
    pos: Vec2,
    color: i32,
    owner_idx: i32,
    d: &SpawnDraws,
    nobjects: &mut Pool<NObject>,
) -> (r: usize)
    requires
        old(nobjects).wf(),
        old(nobjects)@.len() > 0,
        core_draws_fit(*ty, *d),
    ensures
        final(nobjects).wf(),
        r < old(nobjects)@.len(),
        final(nobjects)@ == reused(old(nobjects)@, new_nobject(*ty, vel, pos, color, owner_idx, *d)),
{
    let cur_frame = if ty.start_frame > 0 {
        d.frame as i32
    } else if color != 0 {
        color
    } else {
        ty.color_bullets
    };
    let mut time_left = ty.time_to_explo;
    if ty.time_to_explo_v != 0 {
        time_left = time_left - d.explo as i32;
    }
    let obj = NObject { pos, vel, ty: Some(ty.id), owner_idx, cur_frame, time_left };
    nobjects.spawn_reuse(obj)
}

/// The velocity after the first scatter form: each component moves by
/// `distribution - draw`.
pub open spec fn scatter1(ty: NObjectType, vel: Vec2, d: SpawnDraws) -> Vec2 {
    if ty.distribution != 0 {
        Vec2 {
            x: wrapping_add(vel.x, wrapping_sub(ty.distribution, d.dist_x as i32)),
            y: wrapping_add(vel.y, wrapping_sub(ty.distribution, d.dist_y as i32)),
        }
    } else {
        vel
    }
}

/// Spawns with the scatter `distribution - draw` on each velocity component,
/// then as [`nobject_create`].
pub fn nobject_create1(
    ty: &NObjectType,
    vel: Vec2,
    pos: Vec2,
    color: i32,
    owner_idx: i32,
    d: &SpawnDraws,
    nobjects: &mut Pool<NObject>,
) -> (r: usize)
    requires
        old(nobjects).wf(),
        old(nobjects)@.len() > 0,
        core_draws_fit(*ty, *d),
    ensures
        final(nobjects).wf(),
        r < old(nobjects)@.len(),
        final(nobjects)@ == reused(old(nobjects)@, new_nobject(*ty, scatter1(*ty, vel, *d), pos, color, owner_idx, *d)),
{
    let mut v = vel;
    if ty.distribution != 0 {
        let dist = ty.distribution;
        v.x = v.x.wrapping_add(dist.wrapping_sub(d.dist_x as i32));
        v.y = v.y.wrapping_add(dist.wrapping_sub(d.dist_y as i32));
    }
    nobject_create(ty, v, pos, color, owner_idx, d, nobjects)
}

/// The launch velocity of the second variant: the unit direction `angle`
/// scaled by `speed - draw` hundredths, plus `vel`, then the scatter
/// `draw - distribution` on each component.
pub open spec fn launch2(ty: NObjectType, angle: int, vel: Vec2, cossin: Seq<Vec2>, d: SpawnDraws) -> Vec2 {
    let v = scaled_add(cossin[angle], (ty.speed - d.speed as i32) as i32, 100, vel);
    if ty.distribution != 0 {
        Vec2 {
            x: wrapping_add(v.x, wrapping_sub(d.dist_x as i32, ty.distribution)),
            y: wrapping_add(v.y, wrapping_sub(d.dist_y as i32, ty.distribution)),
        }
    } else {
        v
    }
}

/// The object the second variant spawns: launched with [`launch2`] and moved
/// one step at birth.
pub open spec fn new_nobject2(ty: NObjectType, angle: int, vel: Vec2, pos: Vec2, color: i32, owner_idx: i32, cossin: Seq<Vec2>, d: SpawnDraws) -> NObject {
    let v = launch2(ty, angle, vel, cossin, d);
    let o = new_nobject(ty, v, pos, color, owner_idx, d);
    NObject { pos: vec_add(pos, v), ..o }
}

/// The draws fit the `i32` arithmetic of the second variant.
pub open spec fn launch_draws_fit(ty: NObjectType, d: SpawnDraws) -> bool {
    &&& i32::MIN <= ty.speed - d.speed as i32 <= i32::MAX
    &&& core_draws_fit(ty, d)
}

/// Spawns an object launched along `angle` (see [`new_nobject2`]) and returns
/// its slot.
pub fn nobject_create2(
    ty: &NObjectType,
    angle: i32,
    vel: Vec2,
    pos: Vec2,
    color: i32,
    owner_idx: i32,
    cossin: &[Vec2; 128],
    d: &SpawnDraws,
    nobjects: &mut Pool<NObject>,
) -> (r: usize)
    requires
        old(nobjects).wf(),
        old(nobjects)@.len() > 0,
        0 <= angle < 128,
        launch_draws_fit(*ty, *d),
    ensures
        final(nobjects).wf(),
        r < old(nobjects)@.len(),
        final(nobjects)@ == reused(old(nobjects)@, new_nobject2(*ty, angle as int, vel, pos, color, owner_idx, cossin@, *d)),
{
    let real_speed = ty.speed - d.speed as i32;
    let mut v = cossin[angle as usize].mul(real_speed).div(100).add(vel);
    if ty.distribution != 0 {
        let dist = ty.distribution;
        v.x = v.x.wrapping_add((d.dist_x as i32).wrapping_sub(dist));
        v.y = v.y.wrapping_add((d.dist_y as i32).wrapping_sub(dist));
    }
    assert(v == launch2(*ty, angle as int, vel, cossin@, *d));
    let born = pos.add(v);
    let cur_frame = if ty.start_frame > 0 {
        d.frame as i32
    } else if color != 0 {
        color
    } else {
        ty.color_bullets
    };
    let mut time_left = ty.time_to_explo;
    if ty.time_to_explo_v != 0 {
        time_left = time_left - d.explo as i32;
    }
    let obj = NObject { pos: born, vel: v, ty: Some(ty.id), owner_idx, cur_frame, time_left };
    nobjects.spawn_reuse(obj)
}

/// Reads the draws of one second-variant spawn of `ty` from a tape, in the
/// order of the module documentation: the speed draw, the two scatter draws
/// (iff `distribution != 0`), the frame draw (iff `start_frame > 0`) and the
/// fuse draw (iff `time_to_explo_v != 0`). Draws not made are zero.
pub open spec fn read_spawn2(ty: NObjectType, t: DrawTape) -> (SpawnDraws, DrawTape) {
    let (speed, t1) = tape_bound(t, ty.speed_v as u32);
    let (dist_x, t2) = if ty.distribution != 0 {
        tape_bound(t1, (ty.distribution * 2) as u32)
    } else {
        (0u32, t1)
    };
    let (dist_y, t3) = if ty.distribution != 0 {
        tape_bound(t2, (ty.distribution * 2) as u32)
    } else {
        (0u32, t2)
    };
    let (frame, t4) = if ty.start_frame > 0 {
        tape_bound(t3, (ty.num_frames + 1) as u32)
    } else {
        (0u32, t3)
    };
    let (explo, t5) = if ty.time_to_explo_v != 0 {
        tape_bound(t4, ty.time_to_explo_v as u32)
    } else {
        (0u32, t4)
    };
    (SpawnDraws { speed, dist_x, dist_y, frame, explo }, t5)
}

/// The ranges of `ty` keep every second-variant spawn inside `i32`: the speed
/// and fuse variations are non-negative and no larger than what can be
/// subtracted, and the doubled scatter and the frame count fit.
pub open spec fn spawn2_type_ok(ty: NObjectType) -> bool {
    &&& 0 <= ty.speed_v
    &&& i32::MIN <= ty.speed - ty.speed_v
    &&& spawn1_type_ok(ty)
}

/// The ranges of `ty` keep every first-variant spawn inside `i32`: the doubled
/// scatter and the frame count fit, and the fuse variation is non-negative and
/// no larger than what can be subtracted.
pub open spec fn spawn1_type_ok(ty: NObjectType) -> bool {
    &&& -0x4000_0000 <= ty.distribution < 0x4000_0000
    &&& ty.num_frames < i32::MAX
    &&& 0 <= ty.time_to_explo_v
    &&& i32::MIN <= ty.time_to_explo - ty.time_to_explo_v
}

/// Reads the draws of one first-variant spawn of `ty` from a tape: the two
/// scatter draws (iff `distribution != 0`), the frame draw (iff
/// `start_frame > 0`) and the fuse draw (iff `time_to_explo_v != 0`). Draws
/// not made are zero.
pub open spec fn read_spawn1(ty: NObjectType, t: DrawTape) -> (SpawnDraws, DrawTape) {
    let (dist_x, t2) = if ty.distribution != 0 {
        tape_bound(t, (ty.distribution * 2) as u32)
    } else {
        (0u32, t)
    };
    let (dist_y, t3) = if ty.distribution != 0 {
        tape_bound(t2, (ty.distribution * 2) as u32)
    } else {
        (0u32, t2)
    };
    let (frame, t4) = if ty.start_frame > 0 {
        tape_bound(t3, (ty.num_frames + 1) as u32)
    } else {
        (0u32, t3)
    };
    let (explo, t5) = if ty.time_to_explo_v != 0 {
        tape_bound(t4, ty.time_to_explo_v as u32)
    } else {
        (0u32, t4)
    };
    (SpawnDraws { speed: 0, dist_x, dist_y, frame, explo }, t5)
}

/// First-variant draws read for a type within range fit the spawn arithmetic.
pub proof fn lemma_read_spawn1_fits(ty: NObjectType, t: DrawTape)
    requires
        spawn1_type_ok(ty),
    ensures
        core_draws_fit(ty, read_spawn1(ty, t).0),
{
    let (_, t2) = if ty.distribution != 0 { tape_bound(t, (ty.distribution * 2) as u32) } else { (0u32, t) };
    let (_, t3) = if ty.distribution != 0 { tape_bound(t2, (ty.distribution * 2) as u32) } else { (0u32, t2) };
    let (_, t4) = if ty.start_frame > 0 { tape_bound(t3, (ty.num_frames + 1) as u32) } else { (0u32, t3) };
    lemma_tape_bound_below(t4, ty.time_to_explo_v as u32);
}

/// Reads the draws of one first-variant spawn of `ty` ([`read_spawn1`]).
pub fn draw_spawn1(ty: &NObjectType, draws: &mut Draws) -> (r: SpawnDraws)
    requires
        old(draws).wf(),
        spawn1_type_ok(*ty),
    ensures
        final(draws).wf(),
        (r, final(draws)@) == read_spawn1(*ty, old(draws)@),
{
    let mut dist_x: u32 = 0;
    let mut dist_y: u32 = 0;
    if ty.distribution != 0 {
        let max = (ty.distribution * 2) as u32;
        dist_x = draws.bound(max);
        dist_y = draws.bound(max);
    }
    let mut frame: u32 = 0;
    if ty.start_frame > 0 {
        frame = draws.bound((ty.num_frames + 1) as u32);
    }
    let mut explo: u32 = 0;
    if ty.time_to_explo_v != 0 {
        explo = draws.bound(ty.time_to_explo_v as u32);
    }
    SpawnDraws { speed: 0, dist_x, dist_y, frame, explo }
}

/// Draws read for a type within range fit the spawn arithmetic.
pub proof fn lemma_read_spawn2_fits(ty: NObjectType, t: DrawTape)
    requires
        spawn2_type_ok(ty),
    ensures
        launch_draws_fit(ty, read_spawn2(ty, t).0),
{
    let (d, _) = read_spawn2(ty, t);
    let (speed, t1) = tape_bound(t, ty.speed_v as u32);
    lemma_tape_bound_below(t, ty.speed_v as u32);
    assert(d.speed == speed);
    let (_, t2) = if ty.distribution != 0 { tape_bound(t1, (ty.distribution * 2) as u32) } else { (0u32, t1) };
    let (_, t3) = if ty.distribution != 0 { tape_bound(t2, (ty.distribution * 2) as u32) } else { (0u32, t2) };
    let (_, t4) = if ty.start_frame > 0 { tape_bound(t3, (ty.num_frames + 1) as u32) } else { (0u32, t3) };
    lemma_tape_bound_below(t4, ty.time_to_explo_v as u32);
}

/// Reads the draws of one second-variant spawn of `ty` ([`read_spawn2`]).
pub fn draw_spawn2(ty: &NObjectType, draws: &mut Draws) -> (r: SpawnDraws)
    requires
        old(draws).wf(),
        spawn2_type_ok(*ty),
    ensures
        final(draws).wf(),
        (r, final(draws)@) == read_spawn2(*ty, old(draws)@),
{
    let speed = draws.bound(ty.speed_v as u32);
    let mut dist_x: u32 = 0;
    let mut dist_y: u32 = 0;
    if ty.distribution != 0 {
        let max = (ty.distribution * 2) as u32;
        dist_x = draws.bound(max);
        dist_y = draws.bound(max);
    }
    let mut frame: u32 = 0;
    if ty.start_frame > 0 {
        frame = draws.bound((ty.num_frames + 1) as u32);
    }
    let mut explo: u32 = 0;
    if ty.time_to_explo_v != 0 {
        explo = draws.bound(ty.time_to_explo_v as u32);
    }
    SpawnDraws { speed, dist_x, dist_y, frame, explo }
}

/// The draws of one splinter: its angle below 128, its colour offset below 2,
/// then its spawn draws.
#[derive(Clone, Copy, PartialEq, Eq, Debug, Default)]
pub struct SplinterDraws {
    pub angle: u32,
    pub color_sub: u32,
    pub spawn: SpawnDraws,
}

/// The pool after spawning the splinters of `draws` in order.
pub open spec fn splintered(
    s: Seq<Option<NObject>>,
    sty: NObjectType,
    colour: i32,
    pos: Vec2,
    owner_idx: i32,
    cossin: Seq<Vec2>,
    draws: Seq<SplinterDraws>,
) -> Seq<Option<NObject>>
    decreases draws.len(),
{
    if draws.len() == 0 {
        s
    } else {
        let d = draws.last();
        reused(
            splintered(s, sty, colour, pos, owner_idx, cossin, draws.drop_last()),
            new_nobject2(sty, d.angle as int, Vec2 { x: 0, y: 0 }, pos, (colour - d.color_sub as i32) as i32, owner_idx, cossin, d.spawn),
        )
    }
}

/// Spawns one splinter of type `sty` per entry of `draws` at `pos`, each
/// launched along its drawn angle from rest with colour `colour` minus its
/// drawn offset, in order.
pub fn nobject_splinters(
    sty: &NObjectType,
    colour: i32,
    pos: Vec2,
    owner_idx: i32,
    cossin: &[Vec2; 128],
    draws: &Vec<SplinterDraws>,
    nobjects: &mut Pool<NObject>,
)
    requires
        old(nobjects).wf(),
        old(nobjects)@.len() > 0,
        forall|k: int| 0 <= k < draws@.len() ==> {
            &&& #[trigger] draws@[k].angle < 128
            &&& draws@[k].color_sub <= 1
            &&& launch_draws_fit(*sty, draws@[k].spawn)
        },
        i32::MIN + 1 <= colour,
    ensures
        final(nobjects).wf(),
        final(nobjects)@ == splintered(old(nobjects)@, *sty, colour, pos, owner_idx, cossin@, draws@),
{
    let ghost s0 = nobjects@;
    let mut i: usize = 0;
    while i < draws.len()
        invariant
            nobjects.wf(),
            nobjects@.len() == s0.len(),
            s0.len() > 0,
            i <= draws@.len(),
            forall|k: int| 0 <= k < draws@.len() ==> {
                &&& #[trigger] draws@[k].angle < 128
                &&& draws@[k].color_sub <= 1
                &&& launch_draws_fit(*sty, draws@[k].spawn)
            },
            i32::MIN + 1 <= colour,
            nobjects@ == splintered(s0, *sty, colour, pos, owner_idx, cossin@, draws@.take(i as int)),
        decreases draws.len() - i,
    {
        let d = draws[i];
        assert(draws@[i as int].angle < 128);
        nobject_create2(sty, d.angle as i32, Vec2::zero(), pos, colour - d.color_sub as i32, owner_idx, cossin, &d.spawn, nobjects);
        assert(draws@.take(i + 1).drop_last() =~= draws@.take(i as int));
        i += 1;
    }
    assert(draws@.take(i as int) =~= draws@);
}

// ---------------------------------------------------------------------------
// Motion
// ---------------------------------------------------------------------------

/// The driver's verdict for a processed non-weapon object.
#[derive(Clone, Copy, PartialEq, Eq, Debug)]
pub enum NObjectOutcome {
    /// Keep the object in its slot.
    Keep,
    /// Run the explosion and free the slot.
    Explode,
    /// Free the slot.
    Remove,
}

/// What one tick of a non-weapon object asks of its caller.
#[derive(Clone, Copy, PartialEq, Eq, Debug)]
pub struct NObjectStep {
    pub outcome: NObjectOutcome,
    /// A blood particle to spawn: its position and velocity.
    pub trail: Option<(Vec2, Vec2)>,
    /// The sprite frame to stamp into the level and its top-left pixel.
    pub blit: Option<(i32, i32, i32)>,
}

/// `(x, y)` is outside the level or solid.
pub open spec fn blocked(level: LevelSim, x: int, y: int) -> bool {
    !level.in_bounds(x, y) || has_flag(level.flags_xy(x, y), MAT_DIRT_ROCK)
}

/// The velocity after the bounce probes: a solid cell beside the next step
/// reflects the x component (scaled by `bounce` percent) and damps y to 4/5;
/// then a solid cell below or above reflects y and damps x.
pub open spec fn bounced_vel(level: LevelSim, ty: NObjectType, p: Vec2, vel: Vec2) -> Vec2 {
    let inew_x = spec_ftoi(wrapping_add(p.x, vel.x));
    let inew_y = spec_ftoi(wrapping_add(p.y, vel.y));
    let ipx = spec_ftoi(p.x);
    let ipy = spec_ftoi(p.y);
    if ty.bounce > 0 {
        let v1 = if blocked(level, inew_x, ipy) {
            Vec2 {
                x: spec_wrapping_div(wrapping_mul(spec_wrapping_neg(vel.x), ty.bounce), 100),
                y: spec_wrapping_div(wrapping_mul(vel.y, 4), 5),
            }
        } else {
            vel
        };
        if blocked(level, ipx, inew_y) {
            Vec2 {
                x: spec_wrapping_div(wrapping_mul(v1.x, 4), 5),
                y: spec_wrapping_div(wrapping_mul(spec_wrapping_neg(v1.y), ty.bounce), 100),
            }
        } else {
            v1
        }
    } else {
        vel
    }
}

/// A position whose next step leaves the level is clamped to the edge the
/// step crosses: to 0, or to the level's width or height in fixed point.
pub open spec fn clamped_pos(level: LevelSim, p: Vec2, inew_x: int, inew_y: int) -> Vec2 {
    Vec2 {
        x: if inew_x >= level.width {
            (level.width * 65536) as i32
        } else if inew_x < 0 {
            0
        } else {
            p.x
        },
        y: if inew_y >= level.height {
            (level.height * 65536) as i32
        } else if inew_y < 0 {
            0
        } else {
            p.y
        },
    }
}

/// The animation frame after one tick: every eighth tick the frame steps
/// with the direction of travel, wrapping within `[0, num_frames]`.
pub open spec fn animated_frame(ty: NObjectType, frame: i32, vx: i32, cycles: i32) -> i32 {
    if ty.num_frames > 0 && cycles as int % 8 == 0 {
        if vx > 0 {
            if frame + 1 > ty.num_frames { 0 } else { (frame + 1) as i32 }
        } else if vx < 0 {
            if frame - 1 < 0 { ty.num_frames } else { (frame - 1) as i32 }
        } else {
            frame
        }
    } else {
        frame
    }
}

/// One tick of `obj` of type `ty` at tick `cycles`: the object and the step.
///
/// It moves by its velocity; the bounce probes act; a blood-trail type drops
/// a particle (at its position, with a quarter of its velocity) on ticks that
/// are multiples of its trail delay; a next step leaving the level clamps the
/// position; a solid or outside next cell stops it (and an explode-on-ground
/// type explodes, stamping its frame first when it draws on the map), while
/// free air applies gravity; the frame animates; a fused type counts down and
/// explodes at zero.
pub open spec fn processed_nobject(obj: NObject, ty: NObjectType, level: LevelSim, cycles: i32) -> (NObject, NObjectStep) {
    let p = vec_add(obj.pos, obj.vel);
    let v1 = bounced_vel(level, ty, p, obj.vel);
    let trail = if ty.blood_trail && ty.blood_trail_delay > 0 && cycles as int % ty.blood_trail_delay as int == 0 {
        Some((p, vec_div(v1, 4)))
    } else {
        None
    };
    let inew_x = spec_ftoi(wrapping_add(p.x, v1.x));
    let inew_y = spec_ftoi(wrapping_add(p.y, v1.y));
    let p2 = clamped_pos(level, p, inew_x, inew_y);
    let hit = blocked(level, inew_x, inew_y);
    let v2 = if hit { Vec2 { x: 0, y: 0 } } else { Vec2 { y: wrapping_add(v1.y, ty.gravity), ..v1 } };
    let ground_explode = hit && ty.expl_ground;
    let blit = if ground_explode && ty.start_frame > 0 && ty.draw_on_map {
        Some(((ty.start_frame + obj.cur_frame) as i32, (spec_ftoi(p.x) - 3) as i32, (spec_ftoi(p.y) - 3) as i32))
    } else {
        None
    };
    let frame = animated_frame(ty, obj.cur_frame, v2.x, cycles);
    let fused = ty.time_to_explo > 0;
    let time_left = if fused { (obj.time_left - 1) as i32 } else { obj.time_left };
    let explode = ground_explode || (fused && time_left <= 0);
    (
        NObject { pos: p2, vel: v2, cur_frame: frame, time_left, ..obj },
        NObjectStep { outcome: if explode { NObjectOutcome::Explode } else { NObjectOutcome::Keep }, trail, blit },
    )
}

/// A non-weapon object stops on what it runs into and otherwise falls: when
/// the cell of its next step (after its move and the bounce probes) is
/// outside the level or solid its velocity becomes zero, and an
/// explode-on-ground type explodes; in free air its horizontal velocity is
/// kept and its vertical velocity gains the type's gravity. A fused type whose
/// countdown reaches zero explodes; a fuseless one that hits nothing stays.
pub proof fn law_nobject_stops_or_falls(obj: NObject, ty: NObjectType, level: LevelSim, cycles: i32)
    ensures
        ({
            let p = vec_add(obj.pos, obj.vel);
            let v1 = bounced_vel(level, ty, p, obj.vel);
            let nx = spec_ftoi(wrapping_add(p.x, v1.x));
            let ny = spec_ftoi(wrapping_add(p.y, v1.y));
            let (o, step) = processed_nobject(obj, ty, level, cycles);
            &&& blocked(level, nx, ny) ==> o.vel.x == 0 && o.vel.y == 0
            &&& (blocked(level, nx, ny) && ty.expl_ground) ==> step.outcome == NObjectOutcome::Explode
            &&& !blocked(level, nx, ny) ==> o.vel.x == v1.x
            &&& (!blocked(level, nx, ny) && i32::MIN <= v1.y + ty.gravity <= i32::MAX) ==> o.vel.y == v1.y + ty.gravity
            &&& (ty.time_to_explo > 0 && obj.time_left - 1 <= 0 && obj.time_left > i32::MIN)
                ==> step.outcome == NObjectOutcome::Explode
            &&& (!blocked(level, nx, ny) && ty.time_to_explo <= 0) ==> step.outcome == NObjectOutcome::Keep
        }),
{
}

/// `(x, y)` is outside the level or solid.
fn blocked_exec(level: &LevelSim, x: i32, y: i32) -> (r: bool)
    requires
        level.wf(),
    ensures
        r == blocked(*level, x as int, y as int),
{
    !level.inside(x, y) || level.dirt_rock(x, y)
}

/// Advances `obj` of type `ty` by one tick at tick `cycles` and returns what
/// the caller must do next; see [`processed_nobject`]. The caller spawns the
/// trail particle, stamps the frame, and on `Explode` runs the type's
/// explosion, carves its crater and spawns its splinters, then frees the slot.
pub fn nobject_process(obj: &mut NObject, ty: &NObjectType, level: &LevelSim, cycles: i32) -> (r: NObjectStep)
    requires
        level.wf(),
        ty.num_frames > 0 && cycles as int % 8 == 0 ==> {
            let vx = processed_nobject(*old(obj), *ty, *level, cycles).0.vel.x;
            &&& vx > 0 ==> old(obj).cur_frame < i32::MAX
            &&& vx < 0 ==> old(obj).cur_frame > i32::MIN
        },
        ty.time_to_explo > 0 ==> old(obj).time_left > i32::MIN,
        processed_nobject(*old(obj), *ty, *level, cycles).1.blit is Some ==> ty.start_frame + old(obj).cur_frame
            <= i32::MAX,
    ensures
        (*final(obj), r) == processed_nobject(*old(obj), *ty, *level, cycles),
{
    let ghost o0 = *obj;
    obj.pos = obj.pos.add(obj.vel);
    let inew_x = ftoi(obj.pos.x.wrapping_add(obj.vel.x));
    let inew_y = ftoi(obj.pos.y.wrapping_add(obj.vel.y));
    let ipos_x = ftoi(obj.pos.x);
    let ipos_y = ftoi(obj.pos.y);
    if ty.bounce > 0 {
        if blocked_exec(level, inew_x, ipos_y) {
            obj.vel.x = wrapping_div_i32(wrapping_neg_i32(obj.vel.x).wrapping_mul(ty.bounce), 100);
            obj.vel.y = wrapping_div_i32(obj.vel.y.wrapping_mul(4), 5);
        }
        if blocked_exec(level, ipos_x, inew_y) {
            obj.vel.y = wrapping_div_i32(wrapping_neg_i32(obj.vel.y).wrapping_mul(ty.bounce), 100);
            obj.vel.x = wrapping_div_i32(obj.vel.x.wrapping_mul(4), 5);
        }
    }
    assert(obj.vel == bounced_vel(*level, *ty, obj.pos, o0.vel));
    let mut trail: Option<(Vec2, Vec2)> = None;
    if ty.blood_trail && ty.blood_trail_delay > 0 {
        let on_beat = match cycles.checked_rem_euclid(ty.blood_trail_delay) {
            Some(r) => r == 0,
            None => false,
        };
        if on_beat {
            trail = Some((obj.pos, obj.vel.div(4)));
        }
    }
    assert(trail == (if ty.blood_trail && ty.blood_trail_delay > 0 && cycles as int % ty.blood_trail_delay as int == 0 {
        Some((obj.pos, vec_div(obj.vel, 4)))
    } else {
        None
    }));
    let inew_x = ftoi(obj.pos.x.wrapping_add(obj.vel.x));
    let inew_y = ftoi(obj.pos.y.wrapping_add(obj.vel.y));
    let ghost p = obj.pos;
    if inew_x < 0 {
        obj.pos.x = 0;
    }
    if inew_y < 0 {
        obj.pos.y = 0;
    }
    if inew_x >= level.width {
        obj.pos.x = itof(level.width);
    }
    if inew_y >= level.height {
        obj.pos.y = itof(level.height);
    }
    assert(obj.pos == clamped_pos(*level, p, inew_x as int, inew_y as int));
    let mut explode = false;
    let mut blit: Option<(i32, i32, i32)> = None;
    if blocked_exec(level, inew_x, inew_y) {
        obj.vel = Vec2::zero();
        if ty.expl_ground {
            if ty.start_frame > 0 && ty.draw_on_map {
                blit = Some((ty.start_frame + obj.cur_frame, ipos_x - 3, ipos_y - 3));
            }
            explode = true;
        }
    } else {
        obj.vel.y = obj.vel.y.wrapping_add(ty.gravity);
    }
    assert(obj.vel == processed_nobject(o0, *ty, *level, cycles).0.vel);
    if ty.num_frames > 0 && (cycles & 7) == 0 {
        assert((cycles & 7) == 0 <==> cycles as int % 8 == 0) by (bit_vector);
        if obj.vel.x > 0 {
            obj.cur_frame += 1;
            if obj.cur_frame > ty.num_frames {
                obj.cur_frame = 0;
            }
        } else if obj.vel.x < 0 {
            obj.cur_frame -= 1;
            if obj.cur_frame < 0 {
                obj.cur_frame = ty.num_frames;
            }
        }
    } else {
        assert((cycles & 7) == 0 <==> cycles as int % 8 == 0) by (bit_vector);
    }
    if ty.time_to_explo > 0 {
        obj.time_left -= 1;
        if obj.time_left <= 0 {
            explode = true;
        }
    }
    NObjectStep {
        outcome: if explode { NObjectOutcome::Explode } else { NObjectOutcome::Keep },
        trail,
        blit,
    }
}

/// Whether an impact at pixel `(x, y)` with reach `dist` touches the visible
/// worm's 16x16 sprite box, whose top-left is 7 pixels left of and 5 pixels
/// above the worm's pixel.
pub open spec fn touches_worm(worm: WormState, x: int, y: int, dist: int) -> bool {
    let dx = x - spec_ftoi(worm.pos.x) + 7;
    let dy = y - spec_ftoi(worm.pos.y) + 5;
    &&& worm.visible
    &&& (if dx - dist < 0 { 0 } else { dx - dist }) < (if dx + dist + 1 < 16 { dx + dist + 1 } else { 16 })
    &&& (if dy - dist < 0 { 0 } else { dy - dist }) < (if dy + dist + 1 < 16 { dy + dist + 1 } else { 16 })
}

/// The box test of a worm hit; see [`touches_worm`].
pub fn check_for_spec_worm_hit(worm: &WormState, x: i32, y: i32, dist: i32) -> (r: bool)
    requires
        worm.visible ==> {
            let dx = x - spec_ftoi(worm.pos.x) + 7;
            let dy = y - spec_ftoi(worm.pos.y) + 5;
            &&& i32::MIN <= x - spec_ftoi(worm.pos.x) && i32::MIN <= y - spec_ftoi(worm.pos.y)
            &&& dx <= i32::MAX && dy <= i32::MAX
            &&& i32::MIN <= dx - dist <= i32::MAX && i32::MIN <= dy - dist <= i32::MAX
            &&& i32::MIN <= dx + dist && dx + dist + 1 <= i32::MAX
            &&& i32::MIN <= dy + dist && dy + dist + 1 <= i32::MAX
        },
    ensures
        r == touches_worm(*worm, x as int, y as int, dist as int),
{
    if !worm.visible {
        return false;
    }
    let delta_x = x - ftoi(worm.pos.x) + 7;
    let delta_y = y - ftoi(worm.pos.y) + 5;
    let x1 = if delta_x - dist < 0 { 0 } else { delta_x - dist };
    let y1 = if delta_y - dist < 0 { 0 } else { delta_y - dist };
    let x2 = if delta_x + dist + 1 < 16 { delta_x + dist + 1 } else { 16 };
    let y2 = if delta_y + dist + 1 < 16 { delta_y + dist + 1 } else { 16 };
    x1 < x2 && y1 < y2
}

// ---------------------------------------------------------------------------
// Explosion
// ---------------------------------------------------------------------------

/// Reads the draws of `n` splinters of `sty` from a tape: per splinter its
/// angle below 128, its colour offset below 2, then its spawn draws.
pub open spec fn read_splinters(sty: NObjectType, t: DrawTape, n: nat) -> (Seq<SplinterDraws>, DrawTape)
    decreases n,
{
    if n == 0 {
        (Seq::empty(), t)
    } else {
        let (ds, t1) = read_splinters(sty, t, (n - 1) as nat);
        let (angle, t2) = tape_bound(t1, 128);
        let (color_sub, t3) = tape_bound(t2, 2);
        let (spawn, t4) = read_spawn2(sty, t3);
        (ds.push(SplinterDraws { angle, color_sub, spawn }), t4)
    }
}

/// Splinter draws read from a tape are in range for a type within range.
pub proof fn lemma_read_splinters_ok(sty: NObjectType, t: DrawTape, n: nat)
    requires
        spawn2_type_ok(sty),
    ensures
        read_splinters(sty, t, n).0.len() == n,
        forall|k: int| 0 <= k < n ==> {
            let d = #[trigger] read_splinters(sty, t, n).0[k];
            &&& d.angle < 128
            &&& d.color_sub <= 1
            &&& launch_draws_fit(sty, d.spawn)
        },
    decreases n,
{
    if n > 0 {
        lemma_read_splinters_ok(sty, t, (n - 1) as nat);
        let (ds, t1) = read_splinters(sty, t, (n - 1) as nat);
        let (_, t2) = tape_bound(t1, 128);
        let (_, t3) = tape_bound(t2, 2);
        lemma_tape_bound_below(t1, 128);
        lemma_tape_bound_below(t2, 2);
        lemma_read_spawn2_fits(sty, t3);
        let all = read_splinters(sty, t, n).0;
        assert forall|k: int| 0 <= k < n implies {
            let d = #[trigger] all[k];
            &&& d.angle < 128
            &&& d.color_sub <= 1
            &&& launch_draws_fit(sty, d.spawn)
        } by {
            if k < n - 1 {
                assert(all[k] == ds[k]);
            }
        }
    }
}

/// Reads the draws of `n` splinters ([`read_splinters`]).
fn draw_splinters(sty: &NObjectType, n: i32, draws: &mut Draws) -> (r: Vec<SplinterDraws>)
    requires
        old(draws).wf(),
        spawn2_type_ok(*sty),
        n >= 0,
    ensures
        final(draws).wf(),
        (r@, final(draws)@) == read_splinters(*sty, old(draws)@, n as nat),
{
    let mut out: Vec<SplinterDraws> = Vec::new();
    let mut k: i32 = 0;
    while k < n
        invariant
            0 <= k <= n,
            draws.wf(),
            spawn2_type_ok(*sty),
            (out@, draws@) == read_splinters(*sty, old(draws)@, k as nat),
        decreases n - k,
    {
        let angle = draws.bound(128);
        let color_sub = draws.bound(2);
        let spawn = draw_spawn2(sty, draws);
        out.push(SplinterDraws { angle, color_sub, spawn });
        k += 1;
    }
    out
}

/// The state an exploding non-weapon object leaves, given the level `mid`
/// between the explosion and the crater: see [`nobject_explode`].
pub open spec fn nobject_exploded(
    obj: NObject,
    ty: NObjectType,
    nobject_types: Seq<NObjectType>,
    sobject_types: Seq<SObjectType>,
    cossin: Seq<Vec2>,
    large_sprites: SpriteSet,
    textures: Seq<Texture>,
    weapons: Seq<Weapon>,
    blood: i32,
    level0: LevelSim,
    worms0: Seq<WormState>,
    wobjects0: Seq<Option<WObject>>,
    nobjects0: Seq<Option<NObject>>,
    sobjects0: Seq<Option<SObject>>,
    tape0: DrawTape,
    mid: LevelSim,
    level1: LevelSim,
    worms1: Seq<WormState>,
    wobjects1: Seq<Option<WObject>>,
    nobjects1: Seq<Option<NObject>>,
    sobjects1: Seq<Option<SObject>>,
    tape1: DrawTape,
) -> bool {
    let px = spec_ftoi(obj.pos.x) as i32;
    let py = spec_ftoi(obj.pos.y) as i32;
    let st = sobject_types[ty.create_on_exp as int];
    let b = blast(st, px, py, obj.owner_idx, worms0, wobjects0, weapons, nobjects0, nobject_types, level0,
        cossin, textures, blood, tape0);
    let (no, tm) = if ty.create_on_exp >= 0 { (b.nobjects, b.tape) } else { (nobjects0, tape0) };
    let tex = textures[ty.dirt_effect as int];
    let (fill, tc) = if ty.dirt_effect >= 0 { tape_bound(tm, tex.rframe as u32) } else { (0u32, tm) };
    let sty = nobject_types[ty.splinter_type as int];
    let (sd, ts) = if ty.splinter_amount > 0 {
        read_splinters(sty, tc, ty.splinter_amount as nat)
    } else {
        (Seq::empty(), tc)
    };
    &&& ty.create_on_exp >= 0 ==> {
        &&& worms1 == b.worms
        &&& wobjects1 == b.wobjects
        &&& exists|i: int| is_lowest_free(sobjects0, i)
            && sobjects1 == sobjects0.update(i, Some(new_sobject(st, px, py)))
        &&& cratered(level0, mid, large_sprites, textures[st.dirt_effect as int],
            textures[st.dirt_effect as int].sframe + b.fill, px - 7, py - 7, st.dirt_effect >= 0)
    }
    &&& ty.create_on_exp < 0 ==> {
        &&& worms1 == worms0
        &&& wobjects1 == wobjects0
        &&& sobjects1 == sobjects0
        &&& mid == level0
    }
    &&& cratered(mid, level1, large_sprites, tex, tex.sframe + fill, px - 7, py - 7, ty.dirt_effect >= 0)
    &&& nobjects1 == splintered(no, sty, ty.splinter_colour, obj.pos, obj.owner_idx, cossin, sd)
    &&& tape1 == ts
}

/// The explosion of a non-weapon object `obj` of type `ty` at its pixel
/// `(px, py)`: the explosion of object type `create_on_exp` (iff it is
/// non-negative; see [`sobject_create`]), then the type's crater (iff
/// `dirt_effect >= 0`) at `(px - 7, py - 7)` with its fill draw, then
/// `splinter_amount` splinters of type `splinter_type` from `obj.pos` with
/// colour `splinter_colour` ([`read_splinters`], [`splintered`]).
/// The caller frees the object's slot.
pub fn nobject_explode(
    obj: &NObject,
    ty: &NObjectType,
    nobject_types: &[NObjectType],
    sobject_types: &[SObjectType],
    level: &mut LevelSim,
    cossin: &[Vec2; 128],
    large_sprites: &SpriteSet,
    textures: &[Texture],
    worms: &mut Vec<WormState>,
    wobjects: &mut Pool<WObject>,
    weapons: &[Weapon],
    nobjects: &mut Pool<NObject>,
    sobjects: &mut Pool<SObject>,
    blood: i32,
    draws: &mut Draws,
)
    requires
        old(draws).wf(),
        old(level).wf(),
        ty.create_on_exp >= 0 ==> {
            &&& ty.create_on_exp < sobject_types@.len()
            &&& old(sobjects).wf()
            &&& exists|i: int| 0 <= i < old(sobjects)@.len() && #[trigger] old(sobjects)@[i] is None
            &&& blast_ok(sobject_types@[ty.create_on_exp as int], spec_ftoi(obj.pos.x) as i32,
                spec_ftoi(obj.pos.y) as i32, old(worms)@, *old(wobjects), weapons@, *old(nobjects),
                nobject_types@, *old(level), *large_sprites, textures@, blood)
        },
        ty.dirt_effect >= 0 ==> crater_ok(*large_sprites, textures@, ty.dirt_effect),
        ty.splinter_amount > 0 ==> {
            &&& 0 <= ty.splinter_type < nobject_types@.len()
            &&& spawn2_type_ok(nobject_types@[ty.splinter_type as int])
            &&& i32::MIN + 1 <= ty.splinter_colour
            &&& old(nobjects).wf()
            &&& old(nobjects)@.len() > 0
        },
    ensures
        final(draws).wf(),
        ty.create_on_exp >= 0 ==> final(sobjects).wf(),
        ty.splinter_amount > 0 ==> final(nobjects).wf(),
        exists|mid: LevelSim| #[trigger] nobject_exploded(*obj, *ty, nobject_types@, sobject_types@, cossin@,
            *large_sprites, textures@, weapons@, blood, *old(level), old(worms)@, old(wobjects)@,
            old(nobjects)@, old(sobjects)@, old(draws)@, mid, *final(level), final(worms)@,
            final(wobjects)@, final(nobjects)@, final(sobjects)@, final(draws)@),
{
    let ghost level0 = *level;
    let ghost worms0 = worms@;
    let ghost wobjects0 = wobjects@;
    let ghost nobjects0 = nobjects@;
    let ghost sobjects0 = sobjects@;
    let ghost tape0 = draws@;
    let px = ftoi(obj.pos.x);
    let py = ftoi(obj.pos.y);
    if ty.create_on_exp >= 0 {
        let st = &sobject_types[ty.create_on_exp as usize];
        sobject_create(st, px, py, obj.owner_idx, worms, wobjects, weapons, nobjects, nobject_types, level,
            cossin, large_sprites, textures, sobjects, blood, draws);
    }
    let ghost mid = *level;
    let ghost tm = draws@;
    if ty.dirt_effect >= 0 {
        let tex = &textures[ty.dirt_effect as usize];
        let fill = draws.bound(tex.rframe as u32);
        proof {
            lemma_tape_bound_below(tm, tex.rframe as u32);
        }
        draw_dirt_effect(level, large_sprites, textures, ty.dirt_effect, px - 7, py - 7, fill);
    }
    let ghost tc = draws@;
    let ghost no = nobjects@;
    if ty.splinter_amount > 0 {
        let sty = &nobject_types[ty.splinter_type as usize];
        proof {
            lemma_read_splinters_ok(*sty, tc, ty.splinter_amount as nat);
        }
        let sd = draw_splinters(sty, ty.splinter_amount, draws);
        nobject_splinters(sty, ty.splinter_colour, obj.pos, obj.owner_idx, cossin, &sd, nobjects);
    } else {
        assert(splintered(no, nobject_types@[ty.splinter_type as int], ty.splinter_colour, obj.pos,
            obj.owner_idx, cossin@, Seq::empty()) == no);
    }
    assert(nobject_exploded(*obj, *ty, nobject_types@, sobject_types@, cossin@, *large_sprites, textures@,
        weapons@, blood, level0, worms0, wobjects0, nobjects0, sobjects0, tape0, mid, *level, worms@,
        wobjects@, nobjects@, sobjects@, draws@));
}

} // verus!
