//! Blood particles: the spawn and the per-tick fall.
//!
//! A spawn draws the particle's colour below the number of blood colours. A
//! particle that lands paints one level pixel with a shade drawn below 3 and
//! is freed; a particle that leaves the level is freed without a draw; one in
//! the air falls on without a draw. [`bobject_lands`] tells the caller whether
//! this tick draws.

use vstd::prelude::*;
use crate::fixed::{ftoi, spec_ftoi, vec_add, Vec2};
use crate::draws::{tape_bound, DrawTape, Draws};
use crate::pool::{walk_next, BloodPool};
use crate::state::{has_flag, BObject, LevelSim, MAT_BACKGROUND, MAT_DIRT, MAT_DIRT2, MAT_ROCK};
use vstd::wrapping::i32_specs::wrapping_add;

verus! {

/// Appends a blood particle at `pos` with velocity `vel` and colour
/// `first_blood_colour + colour_draw`, where `colour_draw` is the draw below
/// `num_blood_colours`; a full pool drops it.
pub fn create_bobject(
    bobjects: &mut BloodPool<BObject>,
    pos: Vec2,
    vel: Vec2,
    first_blood_colour: i32,
    colour_draw: u32,
)
    requires
        old(bobjects).wf(),
        colour_draw <= i32::MAX,
        colour_draw + first_blood_colour <= i32::MAX,
    ensures
        final(bobjects).wf(),
        final(bobjects).cap() == old(bobjects).cap(),
        final(bobjects)@ == if old(bobjects)@.len() < old(bobjects).cap() {
            old(bobjects)@.push(BObject { pos, vel, color: (colour_draw + first_blood_colour) as i32 })
        } else {
            old(bobjects)@
        },
{
    let color = colour_draw as i32 + first_blood_colour;
    let _ = bobjects.spawn(BObject { pos, vel, color });
}

/// The pixel a particle occupies after this tick's move.
pub open spec fn landing_pixel(obj: BObject) -> (int, int) {
    let p = vec_add(obj.pos, obj.vel);
    (spec_ftoi(p.x), spec_ftoi(p.y))
}

/// The raw pixel value `c` is blood or the blood band.
pub open spec fn blood_band(c: int) -> bool {
    (1 <= c <= 2) || (77 <= c <= 79)
}

/// Whether the particle lands this tick: after moving it is inside the level
/// on a blood-band pixel, dirt or rock.
pub open spec fn lands(obj: BObject, level: LevelSim) -> bool {
    let (x, y) = landing_pixel(obj);
    &&& level.in_bounds(x, y)
    &&& {
        let c = level.material_id@[level.cell(x, y)] as int;
        let f = level.flags_xy(x, y);
        blood_band(c) || has_flag(f, MAT_DIRT | MAT_DIRT2) || has_flag(f, MAT_ROCK)
    }
}

/// The base colour of the shade painted where the particle lands: 77 on the
/// blood band, 82 on dirt, 85 on rock.
pub open spec fn landing_base(obj: BObject, level: LevelSim) -> int {
    let (x, y) = landing_pixel(obj);
    let c = level.material_id@[level.cell(x, y)] as int;
    if blood_band(c) {
        77
    } else if has_flag(level.flags_xy(x, y), MAT_DIRT | MAT_DIRT2) {
        82
    } else {
        85
    }
}

/// Whether the particle lands this tick (and so draws its shade).
pub fn bobject_lands(obj: &BObject, level: &LevelSim) -> (r: bool)
    requires
        level.wf(),
    ensures
        r == lands(*obj, *level),
{
    let p = obj.pos.add(obj.vel);
    let x = ftoi(p.x);
    let y = ftoi(p.y);
    if !level.inside(x, y) {
        return false;
    }
    let c = level.pixel(x, y);
    (1 <= c && c <= 2) || (77 <= c && c <= 79) || level.any_dirt(x, y) || level.rock(x, y)
}

/// One tick of a blood particle; returns whether it stays alive.
///
/// It moves by its velocity. Outside the level it is freed. On a background
/// pixel its fall speeds up by `bobj_gravity`. Where it [`lands`] it paints its
/// pixel with [`landing_base`] plus `shade` (the draw below 3) and is freed;
/// otherwise it stays.
pub fn bobject_process(obj: &mut BObject, level: &mut LevelSim, bobj_gravity: i32, shade: u32) -> (r: bool)
    requires
        old(level).wf(),
        shade < 3,
    ensures
        final(obj).pos == vec_add(old(obj).pos, old(obj).vel),
        final(obj).color == old(obj).color,
        final(obj).vel.x == old(obj).vel.x,
        ({
            let (x, y) = landing_pixel(*old(obj));
            final(obj).vel.y == if old(level).in_bounds(x, y) && has_flag(old(level).flags_xy(x, y), MAT_BACKGROUND) {
                wrapping_add(old(obj).vel.y, bobj_gravity)
            } else {
                old(obj).vel.y
            }
        }),
        r == (old(level).in_bounds(landing_pixel(*old(obj)).0, landing_pixel(*old(obj)).1) && !lands(*old(obj), *old(level))),
        final(level).width == old(level).width,
        final(level).height == old(level).height,
        final(level).material_flags == old(level).material_flags,
        final(level).material_id@ == if lands(*old(obj), *old(level)) {
            let (x, y) = landing_pixel(*old(obj));
            old(level).material_id@.update(old(level).cell(x, y), (landing_base(*old(obj), *old(level)) + shade) as u8)
        } else {
            old(level).material_id@
        },
{
    obj.pos = obj.pos.add(obj.vel);
    let x = ftoi(obj.pos.x);
    let y = ftoi(obj.pos.y);
    if !level.inside(x, y) {
        return false;
    }
    let c = level.pixel(x, y);
    proof {
        crate::state::lemma_cell_in_range(x as int, y as int, level.width as int, level.height as int);
    }
    let idx = (x + y * level.width) as usize;
    if level.background(x, y) {
        obj.vel.y = obj.vel.y.wrapping_add(bobj_gravity);
    }
    if (1 <= c && c <= 2) || (77 <= c && c <= 79) {
        level.set_material(idx, (77 + shade) as u8);
        return false;
    }
    if level.any_dirt(x, y) {
        level.set_material(idx, (82 + shade) as u8);
        return false;
    }
    if level.rock(x, y) {
        level.set_material(idx, (85 + shade) as u8);
        return false;
    }
    true
}

// ---------------------------------------------------------------------------
// The blood walk
// ---------------------------------------------------------------------------

/// The state of a walk over the blood particles: the run of live particles,
/// the cursor into it, the level and the draw tape.
pub struct BloodWalkState {
    pub run: Seq<BObject>,
    pub cursor: int,
    pub level: LevelSim,
    pub tape: DrawTape,
}

/// A particle after this tick's move, its fall sped up by `gravity` when it
/// is over a background pixel of `level`.
pub open spec fn fallen_bobject(o: BObject, level: LevelSim, gravity: i32) -> BObject {
    let (x, y) = landing_pixel(o);
    let over_air = level.in_bounds(x, y) && has_flag(level.flags_xy(x, y), MAT_BACKGROUND);
    BObject {
        pos: vec_add(o.pos, o.vel),
        vel: Vec2 { y: if over_air { wrapping_add(o.vel.y, gravity) } else { o.vel.y }, ..o.vel },
        ..o
    }
}

/// One step of the blood walk takes `pre` to `post`: the particle under the
/// cursor falls ([`fallen_bobject`]); one that [`lands`] reads a shade below 3,
/// paints its pixel with [`landing_base`] plus the shade and is freed; one
/// that leaves the level is freed; any other stays. A freed particle's place
/// goes to the last one, which is examined next ([`walk_next`]).
pub open spec fn blood_step(gravity: i32, pre: BloodWalkState, post: BloodWalkState) -> bool {
    let o = pre.run[pre.cursor];
    let (x, y) = landing_pixel(o);
    let landed = lands(o, pre.level);
    let (shade, t1) = if landed { tape_bound(pre.tape, 3) } else { (0u32, pre.tape) };
    let kept = pre.level.in_bounds(x, y) && !landed;
    let (run, cursor) = walk_next(pre.run, pre.cursor, fallen_bobject(o, pre.level, gravity), kept);
    &&& post.run == run
    &&& post.cursor == cursor
    &&& post.tape == t1
    &&& post.level.width == pre.level.width
    &&& post.level.height == pre.level.height
    &&& post.level.material_flags == pre.level.material_flags
    &&& post.level.material_id@ == if landed {
        pre.level.material_id@.update(pre.level.cell(x, y), (landing_base(o, pre.level) + shade) as u8)
    } else {
        pre.level.material_id@
    }
}

/// `chain` is the blood walk from `init` to `last`: every step is a
/// [`blood_step`] from a state whose cursor is inside its run, and the cursor
/// ends past the run.
pub open spec fn blood_walk(gravity: i32, init: BloodWalkState, last: BloodWalkState, chain: Seq<BloodWalkState>) -> bool {
    &&& chain.len() > 0
    &&& chain[0] == init
    &&& chain.last() == last
    &&& forall|j: int| 0 <= j < chain.len() - 1 ==> {
        &&& 0 <= (#[trigger] chain[j]).cursor < chain[j].run.len()
        &&& blood_step(gravity, chain[j], chain[j + 1])
    }
    &&& last.cursor >= last.run.len()
}

/// One tick of every blood particle, in slot order with swap-remove
/// ([`blood_step`]); a landing particle reads its shade from `draws`.
pub fn process_bobjects(bobjects: &mut BloodPool<BObject>, level: &mut LevelSim, bobj_gravity: i32, draws: &mut Draws)
    requires
        old(bobjects).wf(),
        old(level).wf(),
        old(draws).wf(),
    ensures
        final(bobjects).wf(),
        final(bobjects).cap() == old(bobjects).cap(),
        final(level).wf(),
        final(draws).wf(),
        exists|chain: Seq<BloodWalkState>| #[trigger] blood_walk(
            bobj_gravity,
            (BloodWalkState { run: old(bobjects)@, cursor: 0, level: *old(level), tape: old(draws)@ }),
            (BloodWalkState {
                run: final(bobjects)@,
                cursor: final(bobjects)@.len() as int,
                level: *final(level),
                tape: final(draws)@,
            }),
            chain,
        ),
{
    let ghost init = BloodWalkState { run: bobjects@, cursor: 0, level: *level, tape: draws@ };
    let ghost mut chain: Seq<BloodWalkState> = seq![init];
    let mut i: usize = 0;
    while i < bobjects.len()
        invariant
            bobjects.wf(),
            bobjects.cap() == old(bobjects).cap(),
            level.wf(),
            draws.wf(),
            i <= bobjects@.len(),
            init == (BloodWalkState { run: old(bobjects)@, cursor: 0, level: *old(level), tape: old(draws)@ }),
            chain.len() > 0,
            chain[0] == init,
            chain.last() == (BloodWalkState { run: bobjects@, cursor: i as int, level: *level, tape: draws@ }),
            forall|j: int| 0 <= j < chain.len() - 1 ==> {
                &&& 0 <= (#[trigger] chain[j]).cursor < chain[j].run.len()
                &&& blood_step(bobj_gravity, chain[j], chain[j + 1])
            },
        decreases bobjects@.len() - i,
    {
        let ghost pre = chain.last();
        let o = *bobjects.get(i);
        let mut obj = o;
        let landed = bobject_lands(&obj, level);
        let shade = if landed {
            draws.bound(3)
        } else {
            0
        };
        let keep = bobject_process(&mut obj, level, bobj_gravity, shade);
        assert(obj == fallen_bobject(o, pre.level, bobj_gravity));
        proof {
            let (x, y) = landing_pixel(o);
            if landed {
                crate::state::lemma_cell_in_range(x, y, pre.level.width as int, pre.level.height as int);
            }
        }
        assert(level.material_id@.len() == pre.level.material_id@.len());
        bobjects.set(i, obj);
        if keep {
            i += 1;
        } else {
            bobjects.free(i);
        }
        proof {
            let post = BloodWalkState { run: bobjects@, cursor: i as int, level: *level, tape: draws@ };
            assert(blood_step(bobj_gravity, pre, post));
            let next = chain.push(post);
            assert forall|j: int| 0 <= j < next.len() - 1 implies {
                &&& 0 <= (#[trigger] next[j]).cursor < next[j].run.len()
                &&& blood_step(bobj_gravity, next[j], next[j + 1])
            } by {
                if j < chain.len() - 1 {
                    assert(next[j] == chain[j] && next[j + 1] == chain[j + 1]);
                } else {
                    assert(next[j] == pre && next[j + 1] == post);
                }
            }
            chain = next;
        }
    }
    assert(blood_walk(bobj_gravity, init, chain.last(), chain));
}

} // verus!
