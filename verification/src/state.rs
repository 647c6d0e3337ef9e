//! Simulation state: the packed control word, worm weapons and worms, the
//! pooled object types, and the level material buffer with its probes.

use vstd::prelude::*;
use crate::control::ControlConsts;
use crate::fixed::{abs_i32, Fixed, Vec2};
use crate::blit::{SpriteSet, Texture};
use crate::object_types::{NObjectType, SObjectType, Weapon};
use crate::physics::PhysicsConsts;
use crate::pool::{BloodPool, Pool};

verus! {

/// Number of weapon slots per worm.
pub const NUM_WEAPONS: usize = 5;

/// Capacity of the bonus pool.
pub const BONUS_CAPACITY: usize = 99;
/// Capacity of the weapon-projectile pool.
pub const WOBJECT_CAPACITY: usize = 600;
/// Capacity of the explosion-object pool.
pub const SOBJECT_CAPACITY: usize = 700;
/// Capacity of the debris-object pool.
pub const NOBJECT_CAPACITY: usize = 600;
/// Capacity of the blood-particle pool.
pub const BLOOD_CAPACITY: usize = 700;

/// A weapon's identity: its index in the weapon table.
pub type WeaponId = i32;

// ---------------------------------------------------------------------------
// ControlState
// ---------------------------------------------------------------------------

/// Bit `n` of `w` (for `n < 32`).
pub open spec fn word_bit(w: u32, n: u32) -> bool {
    (w >> n) & 1u32 != 0
}

/// The seven worm control bits packed into a word: Up=0, Down=1, Left=2,
/// Right=3, Fire=4, Change=5, Jump=6.
#[derive(Clone, Copy, PartialEq, Eq, Debug, Default)]
pub struct ControlState(u32);

impl ControlState {
    pub const UP: u32 = 0;
    pub const DOWN: u32 = 1;
    pub const LEFT: u32 = 2;
    pub const RIGHT: u32 = 3;
    pub const FIRE: u32 = 4;
    pub const CHANGE: u32 = 5;
    pub const JUMP: u32 = 6;

    /// The packed control word.
    pub closed spec fn word(self) -> u32 {
        self.0
    }

    /// No keys pressed.
    pub fn new() -> (r: Self)
        ensures
            r.word() == 0,
    {
        ControlState(0)
    }

    /// The raw control word.
    pub fn pack(self) -> (r: u32)
        ensures
            r == self.word(),
    {
        self.0
    }

    /// The control state of an input word, keeping its low seven bits.
    pub fn unpack(state: u32) -> (r: Self)
        ensures
            r.word() == state & 0x7f,
    {
        ControlState(state & 0x7f)
    }

    /// Whether control bit `n` is set.
    pub fn get(self, n: u32) -> (r: bool)
        requires
            n < 32,
        ensures
            r == word_bit(self.word(), n),
    {
        (self.0 >> n) & 1 != 0
    }

    /// Sets (`v`) or clears (`!v`) control bit `n`.
    pub fn set(&mut self, n: u32, v: bool)
        requires
            n < 32,
        ensures
            final(self).word() == if v {
                old(self).word() | (1u32 << n)
            } else {
                old(self).word() & !(1u32 << n)
            },
    {
        if v {
            self.0 = self.0 | (1u32 << n);
        } else {
            self.0 = self.0 & !(1u32 << n);
        }
    }

    /// Sets control bit `n`.
    pub fn press(&mut self, n: u32)
        requires
            n < 32,
        ensures
            final(self).word() == old(self).word() | (1u32 << n),
    {
        self.set(n, true);
    }

    /// Clears control bit `n`.
    pub fn release(&mut self, n: u32)
        requires
            n < 32,
        ensures
            final(self).word() == old(self).word() & !(1u32 << n),
    {
        self.set(n, false);
    }

    /// Returns whether control bit `n` was set, and clears it.
    pub fn pressed_once(&mut self, n: u32) -> (r: bool)
        requires
            n < 32,
        ensures
            r == word_bit(old(self).word(), n),
            final(self).word() == old(self).word() & !(1u32 << n),
    {
        let was = self.get(n);
        self.set(n, false);
        was
    }
}

/// Setting bit `n` makes it read back set, clearing it makes it read back
/// clear, and every other bit keeps its value.
pub proof fn lemma_control_set_get(w: u32, n: u32, m: u32)
    requires
        n < 32,
        m < 32,
    ensures
        word_bit(w | (1u32 << n), n),
        !word_bit(w & !(1u32 << n), n),
        m != n ==> word_bit(w | (1u32 << n), m) == word_bit(w, m),
        m != n ==> word_bit(w & !(1u32 << n), m) == word_bit(w, m),
{
    assert(((w | (1u32 << n)) >> n) & 1u32 != 0) by (bit_vector)
        requires n < 32;
    assert(((w & !(1u32 << n)) >> n) & 1u32 == 0) by (bit_vector)
        requires n < 32;
    assert(m != n ==> (((w | (1u32 << n)) >> m) & 1u32 != 0) == ((w >> m) & 1u32 != 0)) by (bit_vector)
        requires n < 32, m < 32;
    assert(m != n ==> (((w & !(1u32 << n)) >> m) & 1u32 != 0) == ((w >> m) & 1u32 != 0)) by (bit_vector)
        requires n < 32, m < 32;
}

/// Unpacking then packing keeps exactly the seven control bits, and packing
/// then unpacking a state that only ever held control bits gives it back.
pub proof fn lemma_control_pack_unpack(w: u32)
    ensures
        (w & 0x7f) & 0x7f == w & 0x7f,
        (w & 0x7f) <= 0x7f,
{
    assert((w & 0x7f) & 0x7f == w & 0x7f && (w & 0x7f) <= 0x7f) by (bit_vector);
}

// ---------------------------------------------------------------------------
// Weapons
// ---------------------------------------------------------------------------

/// One of a worm's weapon slots.
#[derive(Clone, Copy, PartialEq, Eq, Debug, Default)]
pub struct WormWeapon {
    /// The weapon in this slot, or `None` for an empty slot.
    pub ty: Option<WeaponId>,
    pub ammo: i32,
    pub delay_left: i32,
    pub loading_left: i32,
}

impl WormWeapon {
    /// Whether the weapon has finished loading and may fire again.
    /// Ammo and fire delay are tested separately by the firing logic.
    pub fn available(&self) -> (r: bool)
        ensures
            r == (self.loading_left == 0),
    {
        self.loading_left == 0
    }
}

/// A scenario's weapon slot: a resolved weapon and its starting ammo.
#[derive(Clone, Copy, PartialEq, Eq, Debug, Default)]
pub struct WeaponInit {
    pub ty: Option<WeaponId>,
    pub ammo: i32,
}

// ---------------------------------------------------------------------------
// LevelSim
// ---------------------------------------------------------------------------

/// The level material buffer: dimensions, the per-pixel material id map in
/// row-major order, and the 256-entry material flag table.
#[derive(Clone, PartialEq, Eq, Debug)]
pub struct LevelSim {
    pub width: i32,
    pub height: i32,
    pub material_id: Vec<u8>,
    pub material_flags: [u8; 256],
}

/// Destructible dirt.
pub const MAT_DIRT: u8 = 1;
/// Second dirt variant.
pub const MAT_DIRT2: u8 = 2;
/// Solid rock.
pub const MAT_ROCK: u8 = 4;
/// Empty, walkable background.
pub const MAT_BACKGROUND: u8 = 8;
/// Shadow-receiving material.
pub const MAT_SEE_SHADOW: u8 = 16;
/// Dirt, second dirt or rock: solid to projectiles. Background is excluded.
pub const MAT_DIRT_ROCK: u8 = 7;

/// Whether the flag byte `f` has any of the bits of `mask`.
pub open spec fn has_flag(f: u8, mask: u8) -> bool {
    f & mask != 0
}

/// `(x + y * w)` reinterpreted as an unsigned 32-bit index.
pub open spec fn wrapped_index(x: i32, y: i32, w: i32) -> int {
    (x + y * w) % 0x1_0000_0000
}

/// An `i32` reinterpreted as `u32` is its value modulo 2^32.
pub proof fn lemma_i32_as_u32(v: i32)
    ensures
        (v as u32) as int == (v as int) % 0x1_0000_0000,
{
    if v >= 0 {
        assert(v as u32 == v) by (bit_vector)
            requires v >= 0;
    } else {
        assert((v as u32) as int == v + 0x1_0000_0000) by (bit_vector)
            requires v < 0;
    }
}

/// In-bounds cells flatten to distinct row-major indices inside the buffer.
pub proof fn lemma_cell_in_range(x: int, y: int, w: int, h: int)
    requires
        0 <= x < w,
        0 <= y < h,
    ensures
        0 <= x + y * w < w * h,
{
    assert(0 <= x + y * w < w * h) by (nonlinear_arith)
        requires 0 <= x < w, 0 <= y < h;
}

impl LevelSim {
    /// Non-negative dimensions, a buffer of exactly `width * height` cells, and
    /// a cell count that fits the `i32` index arithmetic.
    pub open spec fn wf(&self) -> bool {
        &&& 0 <= self.width
        &&& 0 <= self.height
        &&& self.width * self.height <= i32::MAX
        &&& self.material_id@.len() == self.width * self.height
    }

    /// `(x, y)` lies inside the level.
    pub open spec fn in_bounds(&self, x: int, y: int) -> bool {
        0 <= x < self.width && 0 <= y < self.height
    }

    /// The row-major index of `(x, y)`.
    pub open spec fn cell(&self, x: int, y: int) -> int {
        x + y * self.width
    }

    /// The flag byte of the material stored at buffer index `idx`.
    pub open spec fn flags_at(&self, idx: int) -> u8 {
        self.material_flags@[self.material_id@[idx] as int]
    }

    /// The flag byte of the in-bounds pixel `(x, y)`.
    pub open spec fn flags_xy(&self, x: int, y: int) -> u8 {
        self.flags_at(self.cell(x, y))
    }

    /// The background test of the flag-table lookup with wrap-around: the
    /// flattened index is `x + y * width` taken as an unsigned 32-bit value (no
    /// separate x check, so a negative x can land on another row); an index past
    /// the buffer reads flag-table entry 0.
    pub open spec fn spec_checked_mat_background(&self, x: i32, y: i32) -> bool {
        let idx = wrapped_index(x, y, self.width);
        has_flag(
            if idx < self.material_id@.len() { self.flags_at(idx) } else { self.material_flags@[0] },
            MAT_BACKGROUND,
        )
    }

    /// Whether the pixel at `(x, y)`, looked up with wrap-around, is background.
    pub fn checked_mat_background(&self, x: i32, y: i32) -> (r: bool)
        ensures
            r == self.spec_checked_mat_background(x, y),
    {
        let v = x.wrapping_add(y.wrapping_mul(self.width));
        let idx = v as u32 as usize;
        proof {
            lemma_i32_as_u32(v);
            let p: int = y as int * self.width as int;
            assert(vstd::wrapping::i32_specs::wrapping_mul(y, self.width) as int % 0x1_0000_0000
                == p % 0x1_0000_0000) by {
                let c = vstd::wrapping::i32_specs::signed_crop(p);
                assert(c as int % 0x1_0000_0000 == p % 0x1_0000_0000) by {
                    vstd::arithmetic::div_mod::lemma_mod_sub_multiples_vanish(p % 0x1_0000_0000, 0x1_0000_0000);
                    vstd::arithmetic::div_mod::lemma_mod_twice(p, 0x1_0000_0000);
                }
            }
            let m = vstd::wrapping::i32_specs::wrapping_mul(y, self.width);
            assert(v as int % 0x1_0000_0000 == (x as int + m as int) % 0x1_0000_0000) by {
                vstd::arithmetic::div_mod::lemma_mod_add_multiples_vanish(x as int + m as int, 0x1_0000_0000);
                vstd::arithmetic::div_mod::lemma_mod_sub_multiples_vanish(x as int + m as int, 0x1_0000_0000);
            }
            assert((x as int + m as int) % 0x1_0000_0000 == (x as int + p) % 0x1_0000_0000) by {
                vstd::arithmetic::div_mod::lemma_add_mod_noop(x as int, m as int, 0x1_0000_0000);
                vstd::arithmetic::div_mod::lemma_add_mod_noop(x as int, p, 0x1_0000_0000);
            }
        }
        let flags = if idx < self.material_id.len() {
            self.material_flags[self.material_id[idx] as usize]
        } else {
            self.material_flags[0]
        };
        (flags & MAT_BACKGROUND) != 0
    }

    /// The true range check `0 <= x < width && 0 <= y < height`.
    pub fn inside(&self, x: i32, y: i32) -> (r: bool)
        ensures
            r == self.in_bounds(x as int, y as int),
    {
        x >= 0 && x < self.width && y >= 0 && y < self.height
    }

    /// Whether `(x, y)` is inside the level and its material is dirt, second
    /// dirt or rock; false outside the level.
    pub fn dirt_rock(&self, x: i32, y: i32) -> (r: bool)
        requires
            self.wf(),
        ensures
            r == (self.in_bounds(x as int, y as int)
                && has_flag(self.flags_xy(x as int, y as int), MAT_DIRT_ROCK)),
    {
        if !self.inside(x, y) {
            return false;
        }
        proof {
            lemma_cell_in_range(x as int, y as int, self.width as int, self.height as int);
        }
        let idx = (x + y * self.width) as usize;
        let flags = self.material_flags[self.material_id[idx] as usize];
        (flags & MAT_DIRT_ROCK) != 0
    }

    /// Background bit of the in-bounds pixel `(x, y)`.
    pub fn background(&self, x: i32, y: i32) -> (r: bool)
        requires
            self.wf(),
            self.in_bounds(x as int, y as int),
        ensures
            r == has_flag(self.flags_xy(x as int, y as int), MAT_BACKGROUND),
    {
        proof {
            lemma_cell_in_range(x as int, y as int, self.width as int, self.height as int);
        }
        let idx = (x + y * self.width) as usize;
        (self.material_flags[self.material_id[idx] as usize] & MAT_BACKGROUND) != 0
    }

    /// Either dirt bit of the in-bounds pixel `(x, y)`.
    pub fn any_dirt(&self, x: i32, y: i32) -> (r: bool)
        requires
            self.wf(),
            self.in_bounds(x as int, y as int),
        ensures
            r == has_flag(self.flags_xy(x as int, y as int), MAT_DIRT | MAT_DIRT2),
    {
        proof {
            lemma_cell_in_range(x as int, y as int, self.width as int, self.height as int);
        }
        let idx = (x + y * self.width) as usize;
        (self.material_flags[self.material_id[idx] as usize] & (MAT_DIRT | MAT_DIRT2)) != 0
    }

    /// First dirt bit of the in-bounds pixel `(x, y)`.
    pub fn dirt(&self, x: i32, y: i32) -> (r: bool)
        requires
            self.wf(),
            self.in_bounds(x as int, y as int),
        ensures
            r == has_flag(self.flags_xy(x as int, y as int), MAT_DIRT),
    {
        proof {
            lemma_cell_in_range(x as int, y as int, self.width as int, self.height as int);
        }
        let idx = (x + y * self.width) as usize;
        (self.material_flags[self.material_id[idx] as usize] & MAT_DIRT) != 0
    }

    /// Second dirt bit of the in-bounds pixel `(x, y)`.
    pub fn dirt2(&self, x: i32, y: i32) -> (r: bool)
        requires
            self.wf(),
            self.in_bounds(x as int, y as int),
        ensures
            r == has_flag(self.flags_xy(x as int, y as int), MAT_DIRT2),
    {
        proof {
            lemma_cell_in_range(x as int, y as int, self.width as int, self.height as int);
        }
        let idx = (x + y * self.width) as usize;
        (self.material_flags[self.material_id[idx] as usize] & MAT_DIRT2) != 0
    }

    /// Stores material `v` at buffer index `idx`; nothing else changes.
    pub fn set_material(&mut self, idx: usize, v: u8)
        requires
            idx < old(self).material_id@.len(),
        ensures
            final(self).material_id@ == old(self).material_id@.update(idx as int, v),
            final(self).width == old(self).width,
            final(self).height == old(self).height,
            final(self).material_flags == old(self).material_flags,
    {
        self.material_id.set(idx, v);
    }

    /// The raw material (palette) value of the in-bounds pixel `(x, y)`.
    pub fn pixel(&self, x: i32, y: i32) -> (r: i32)
        requires
            self.wf(),
            self.in_bounds(x as int, y as int),
        ensures
            r == self.material_id@[self.cell(x as int, y as int)],
    {
        proof {
            lemma_cell_in_range(x as int, y as int, self.width as int, self.height as int);
        }
        self.material_id[(x + y * self.width) as usize] as i32
    }

    /// Rock bit of the in-bounds pixel `(x, y)`.
    pub fn rock(&self, x: i32, y: i32) -> (r: bool)
        requires
            self.wf(),
            self.in_bounds(x as int, y as int),
        ensures
            r == has_flag(self.flags_xy(x as int, y as int), MAT_ROCK),
    {
        proof {
            lemma_cell_in_range(x as int, y as int, self.width as int, self.height as int);
        }
        let idx = (x + y * self.width) as usize;
        (self.material_flags[self.material_id[idx] as usize] & MAT_ROCK) != 0
    }
}

// ---------------------------------------------------------------------------
// Worms
// ---------------------------------------------------------------------------

/// The worm's ninjarope: whether it is deployed and where its hook is.
#[derive(Clone, Copy, PartialEq, Eq, Debug, Default)]
pub struct Ninjarope {
    pub out: bool,
    pub pos: Vec2,
}

/// The scenario description of one worm.
#[derive(Clone, Copy, PartialEq, Eq, Debug)]
pub struct WormInit {
    /// Worm index (0 or 1).
    pub index: i32,
    pub health: i32,
    pub lives: i32,
    /// Stats-panel x position.
    pub stats_x: i32,
    pub weapons: [WeaponInit; NUM_WEAPONS],
    /// Starting position (16.16 fixed point).
    pub start_pos: Vec2,
    pub visible: bool,
}

impl WormInit {
    /// The weapon slots of a scenario from its menu choices: slot `j` takes
    /// the weapon `weapons[weap_order[settings_weapons[j] - 1]]` (the choices
    /// are 1-based positions in the weapon order) with its id and starting
    /// ammo.
    pub fn resolve_weapons(
        weapons: &[Weapon],
        weap_order: &[usize],
        settings_weapons: &[u32; NUM_WEAPONS],
    ) -> (r: [WeaponInit; NUM_WEAPONS])
        requires
            forall|j: int| 0 <= j < NUM_WEAPONS ==> {
                &&& 1 <= #[trigger] settings_weapons@[j] <= weap_order@.len()
                &&& weap_order@[settings_weapons@[j] - 1] < weapons@.len()
            },
        ensures
            forall|j: int| 0 <= j < NUM_WEAPONS ==> {
                let w = weapons@[weap_order@[settings_weapons@[j] - 1] as int];
                #[trigger] r@[j] == (WeaponInit { ty: Some(w.id), ammo: w.ammo })
            },
    {
        let mut out = [WeaponInit { ty: None, ammo: 0 }; NUM_WEAPONS];
        let mut j: usize = 0;
        while j < NUM_WEAPONS
            invariant
                j <= NUM_WEAPONS,
                forall|k: int| 0 <= k < NUM_WEAPONS ==> {
                    &&& 1 <= #[trigger] settings_weapons@[k] <= weap_order@.len()
                    &&& weap_order@[settings_weapons@[k] - 1] < weapons@.len()
                },
                forall|k: int| 0 <= k < j ==> {
                    let w = weapons@[weap_order@[settings_weapons@[k] - 1] as int];
                    #[trigger] out@[k] == (WeaponInit { ty: Some(w.id), ammo: w.ammo })
                },
            decreases NUM_WEAPONS - j,
        {
            let order_idx = (settings_weapons[j] - 1) as usize;
            let weap_idx = weap_order[order_idx];
            let w = weapons[weap_idx];
            out.set(j, WeaponInit { ty: Some(w.id), ammo: w.ammo });
            j += 1;
        }
        out
    }
}

/// The respawn countdown a freshly reset or freshly killed worm starts with.
pub const KILLED_TIMER_INITIAL: i32 = 150;

/// One worm's simulation state.
#[derive(Clone, Copy, PartialEq, Eq, Debug)]
pub struct WormState {
    pub pos: Vec2,
    pub vel: Vec2,
    pub aiming_angle: Fixed,
    pub health: i32,
    pub lives: i32,
    pub kills: i32,
    pub timer: i32,
    pub visible: bool,
    pub killed_timer: i32,
    pub control_states: ControlState,
    pub weapons: [WormWeapon; NUM_WEAPONS],
    pub ninjarope: Ninjarope,
    pub index: i32,
    pub stats_x: i32,
    /// The worm that last damaged this one into death, or -1.
    pub last_killed_by_idx: i32,
    pub aiming_speed: Fixed,
    /// Facing: 0 left, 1 right.
    pub direction: i32,
    pub movable: bool,
    pub able_to_jump: bool,
    pub able_to_dig: bool,
    pub key_change_pressed: bool,
    pub current_weapon: i32,
    pub fire_cone: i32,
    pub leave_shell_timer: i32,
    /// The pixel-space drop-in cursor of a respawn.
    pub logic_respawn: Vec2,
    pub ready: bool,
    pub make_sight_green: bool,
    pub steerable_count: i32,
}

/// `r` is the tick-0 worm of the scenario `init` ([`WormState::from_init`]).
pub open spec fn tick0_worm(init: WormInit, r: WormState) -> bool {
    &&& r.pos == init.start_pos
    &&& r.vel.x == 0 && r.vel.y == 0
    &&& r.aiming_angle == 0
    &&& r.health == init.health
    &&& r.lives == init.lives
    &&& r.kills == 0
    &&& r.timer == 0
    &&& r.visible == init.visible
    &&& r.killed_timer == KILLED_TIMER_INITIAL
    &&& r.control_states.word() == 0
    &&& forall|k: int| 0 <= k < NUM_WEAPONS ==> #[trigger] r.weapons[k] == loaded_slot(init.weapons[k])
    &&& !r.ninjarope.out && r.ninjarope.pos.x == 0 && r.ninjarope.pos.y == 0
    &&& r.index == init.index
    &&& r.stats_x == init.stats_x
    &&& r.last_killed_by_idx == -1
    &&& r.aiming_speed == 0
    &&& r.direction == 0
    &&& r.movable
    &&& !r.able_to_jump
    &&& !r.able_to_dig
    &&& !r.key_change_pressed
    &&& r.current_weapon == 0
    &&& r.fire_cone == 0
    &&& r.leave_shell_timer == 0
    &&& r.logic_respawn.x == 0 && r.logic_respawn.y == 0
    &&& r.ready
    &&& !r.make_sight_green
    &&& r.steerable_count == 0
}

/// A loaded weapon slot for the scenario slot `w`.
pub open spec fn loaded_slot(w: WeaponInit) -> WormWeapon {
    WormWeapon { ty: w.ty, ammo: w.ammo, delay_left: 0, loading_left: 0 }
}

fn load_slot(w: WeaponInit) -> (r: WormWeapon)
    ensures
        r == loaded_slot(w),
{
    WormWeapon { ty: w.ty, ammo: w.ammo, delay_left: 0, loading_left: 0 }
}

/// `w` after direct damage `amount` from worm `by_idx`: a positive amount
/// lowers `health` and, when that leaves it at or below zero, makes `by_idx` the
/// recorded killer; a non-positive amount changes nothing.
pub open spec fn damaged(w: WormState, amount: i32, by_idx: i32) -> WormState {
    if amount > 0 {
        let h = (w.health - amount) as i32;
        WormState {
            health: h,
            last_killed_by_idx: if h <= 0 { by_idx } else { w.last_killed_by_idx },
            ..w
        }
    } else {
        w
    }
}

impl WormState {
    /// The tick-0 worm of a scenario: at its start position, at rest, unaimed,
    /// with its scenario health, lives, index and visibility, no kills, no
    /// input, the rope stowed, the respawn countdown armed, every weapon slot
    /// loaded, and the reset defaults of the control and respawn fields.
    pub fn from_init(init: &WormInit) -> (r: WormState)
        ensures
            r.pos == init.start_pos,
            r.vel.x == 0 && r.vel.y == 0,
            r.aiming_angle == 0,
            r.health == init.health,
            r.lives == init.lives,
            r.kills == 0,
            r.timer == 0,
            r.visible == init.visible,
            r.killed_timer == KILLED_TIMER_INITIAL,
            r.control_states.word() == 0,
            forall|k: int| 0 <= k < NUM_WEAPONS ==> #[trigger] r.weapons[k] == loaded_slot(init.weapons[k]),
            !r.ninjarope.out && r.ninjarope.pos.x == 0 && r.ninjarope.pos.y == 0,
            r.index == init.index,
            r.stats_x == init.stats_x,
            r.last_killed_by_idx == -1,
            r.aiming_speed == 0,
            r.direction == 0,
            r.movable,
            !r.able_to_jump,
            !r.able_to_dig,
            !r.key_change_pressed,
            r.current_weapon == 0,
            r.fire_cone == 0,
            r.leave_shell_timer == 0,
            r.logic_respawn.x == 0 && r.logic_respawn.y == 0,
            r.ready,
            !r.make_sight_green,
            r.steerable_count == 0,
            tick0_worm(*init, r),
    {
        let weapons = [
            load_slot(init.weapons[0]),
            load_slot(init.weapons[1]),
            load_slot(init.weapons[2]),
            load_slot(init.weapons[3]),
            load_slot(init.weapons[4]),
        ];
        let r = WormState {
            pos: init.start_pos,
            vel: Vec2::zero(),
            aiming_angle: 0,
            health: init.health,
            lives: init.lives,
            kills: 0,
            timer: 0,
            visible: init.visible,
            killed_timer: KILLED_TIMER_INITIAL,
            control_states: ControlState::new(),
            weapons,
            ninjarope: Ninjarope { out: false, pos: Vec2::zero() },
            index: init.index,
            stats_x: init.stats_x,
            last_killed_by_idx: -1,
            aiming_speed: 0,
            direction: 0,
            movable: true,
            able_to_jump: false,
            able_to_dig: false,
            key_change_pressed: false,
            current_weapon: 0,
            fire_cone: 0,
            leave_shell_timer: 0,
            logic_respawn: Vec2::zero(),
            ready: true,
            make_sight_green: false,
            steerable_count: 0,
        };
        assert forall|k: int| 0 <= k < NUM_WEAPONS implies #[trigger] r.weapons[k] == loaded_slot(init.weapons[k]) by {
            if k == 0 {} else if k == 1 {} else if k == 2 {} else if k == 3 {} else {}
        }
        r
    }

    /// Subtracts a positive `amount` from `health` and, if that leaves `health`
    /// at or below zero, records `by_idx` as the killer. A non-positive amount
    /// changes nothing.
    pub fn do_damage_direct(&mut self, amount: i32, by_idx: i32)
        requires
            amount > 0 ==> old(self).health - amount >= i32::MIN,
        ensures
            *final(self) == damaged(*old(self), amount, by_idx),
    {
        if amount > 0 {
            self.health = self.health - amount;
            if self.health <= 0 {
                self.last_killed_by_idx = by_idx;
            }
        }
    }

    /// Damage in the normal game mode: exactly [`do_damage_direct`](Self::do_damage_direct).
    pub fn do_damage(&mut self, amount: i32, by_idx: i32)
        requires
            amount > 0 ==> old(self).health - amount >= i32::MIN,
        ensures
            *final(self) == damaged(*old(self), amount, by_idx),
    {
        self.do_damage_direct(amount, by_idx);
    }
}

// ---------------------------------------------------------------------------
// Pooled object types
// ---------------------------------------------------------------------------

/// A weapon or health bonus crate.
#[derive(Clone, Copy, PartialEq, Eq, Debug, Default)]
pub struct Bonus {
    pub x: i32,
    pub y: i32,
    pub timer: i32,
    pub weapon: i32,
    /// 0 for a weapon bonus, 1 for a health bonus.
    pub frame: i32,
    pub vel_y: i32,
}

/// A weapon projectile.
#[derive(Clone, Copy, PartialEq, Eq, Debug, Default)]
pub struct WObject {
    pub pos: Vec2,
    pub vel: Vec2,
    pub cur_frame: i32,
    pub time_left: i32,
    pub ty: Option<WeaponId>,
    /// The firing worm's index.
    pub owner_idx: i32,
}

/// An explosion/animation object.
#[derive(Clone, Copy, PartialEq, Eq, Debug, Default)]
pub struct SObject {
    pub id: i32,
    pub x: i32,
    pub y: i32,
    pub cur_frame: i32,
    pub anim_delay: i32,
}

/// A non-weapon object (debris, splinters, blood drops).
#[derive(Clone, Copy, PartialEq, Eq, Debug, Default)]
pub struct NObject {
    pub pos: Vec2,
    pub vel: Vec2,
    pub cur_frame: i32,
    pub ty: Option<i32>,
    pub owner_idx: i32,
    pub time_left: i32,
}

/// A blood particle.
#[derive(Clone, Copy, PartialEq, Eq, Debug, Default)]
pub struct BObject {
    pub pos: Vec2,
    pub vel: Vec2,
    pub color: i32,
}

// ---------------------------------------------------------------------------
// Respawn placement
// ---------------------------------------------------------------------------

/// `|v|`.
pub open spec fn abs_int(v: int) -> int {
    if v < 0 { -v } else { v }
}

/// The candidate `(x, y)` is rejected by distance: the last-death test compares
/// the raw `old_x` (not `old_x - x`) and `old_y - y` against `dist_last`; the
/// enemy test compares `x2 - x` and `y2 - y` against `dist_enemy`.
pub open spec fn respawn_too_close(
    x2: i32, y2: i32, old_x: i32, old_y: i32, x: i32, y: i32, dist_last: i32, dist_enemy: i32,
) -> bool {
    (abs_int(old_x as int) <= dist_last && abs_int(old_y - y) <= dist_last)
        || (abs_int(x2 - x) <= dist_enemy && abs_int(y2 - y) <= dist_enemy)
}

/// The half-open rock-scan box `[x1, x2) x [y1, y2)` around the candidate:
/// `[x-3, x+3) x [y-4, y+4)`, its far edges pulled in to `width-1`/`height-1`
/// and its near edges to 0.
pub open spec fn respawn_box(level: LevelSim, x: i32, y: i32) -> (int, int, int, int) {
    let x1 = if x - 3 < 0 { 0 } else { x - 3 };
    let y1 = if y - 4 < 0 { 0 } else { y - 4 };
    let x2 = if x + 3 >= level.width { level.width - 1 } else { x + 3 };
    let y2 = if y + 4 >= level.height { level.height - 1 } else { y + 4 };
    (x1, x2, y1, y2)
}

/// No pixel of `[x1, x2) x [y1, y2)` is rock.
pub open spec fn rock_free(level: LevelSim, x1: int, x2: int, y1: int, y2: int) -> bool {
    forall|i: int, j: int| x1 <= i < x2 && y1 <= j < y2 ==> !has_flag(#[trigger] level.flags_xy(i, j), MAT_ROCK)
}

/// Whether the respawn candidate `(x, y)` is accepted: not too close to the
/// last death position or the enemy `(x2, y2)`, and no rock in its scan box.
pub fn check_respawn_position(
    level: &LevelSim,
    x2: i32,
    y2: i32,
    old_x: i32,
    old_y: i32,
    x: i32,
    y: i32,
    min_spawn_dist_last: i32,
    min_spawn_dist_enemy: i32,
) -> (r: bool)
    requires
        level.wf(),
        i32::MIN <= old_y - y <= i32::MAX,
        i32::MIN <= x2 - x <= i32::MAX,
        i32::MIN <= y2 - y <= i32::MAX,
        old_x != i32::MIN,
        abs_int(old_x as int) <= min_spawn_dist_last ==> old_y - y != i32::MIN,
        !(abs_int(old_x as int) <= min_spawn_dist_last && abs_int(old_y - y) <= min_spawn_dist_last)
            ==> x2 - x != i32::MIN,
        !(abs_int(old_x as int) <= min_spawn_dist_last && abs_int(old_y - y) <= min_spawn_dist_last)
            && abs_int(x2 - x) <= min_spawn_dist_enemy ==> y2 - y != i32::MIN,
        !respawn_too_close(x2, y2, old_x, old_y, x, y, min_spawn_dist_last, min_spawn_dist_enemy) ==> {
            let (bx1, bx2, by1, by2) = respawn_box(*level, x, y);
            &&& i32::MIN + 4 <= x && x <= i32::MAX - 4
            &&& i32::MIN + 4 <= y && y <= i32::MAX - 4
            &&& bx1 <= bx2
            &&& bx1 < bx2 ==> by1 <= by2
        },
    ensures
        r == (!respawn_too_close(x2, y2, old_x, old_y, x, y, min_spawn_dist_last, min_spawn_dist_enemy)
            && {
            let (bx1, bx2, by1, by2) = respawn_box(*level, x, y);
            rock_free(*level, bx1, bx2, by1, by2)
        }),
{
    let k_delta_x = old_x;
    let k_delta_y = old_y - y;
    let k_enemy_dx = x2 - x;
    let k_enemy_dy = y2 - y;

    if (abs_i32(k_delta_x) <= min_spawn_dist_last && abs_i32(k_delta_y) <= min_spawn_dist_last)
        || (abs_i32(k_enemy_dx) <= min_spawn_dist_enemy && abs_i32(k_enemy_dy) <= min_spawn_dist_enemy)
    {
        return false;
    }

    let mut max_x = x + 3;
    let mut max_y = y + 4;
    let mut min_x = x - 3;
    let mut min_y = y - 4;
    if max_x >= level.width {
        max_x = level.width - 1;
    }
    if max_y >= level.height {
        max_y = level.height - 1;
    }
    if min_x < 0 {
        min_x = 0;
    }
    if min_y < 0 {
        min_y = 0;
    }
    let ghost bx = respawn_box(*level, x, y);
    assert(bx == (min_x as int, max_x as int, min_y as int, max_y as int));

    let mut i = min_x;
    while i != max_x
        invariant
            level.wf(),
            min_x <= i <= max_x,
            max_x <= level.width - 1,
            min_x >= 0,
            min_x < max_x ==> min_y <= max_y,
            min_y >= 0,
            max_y <= level.height - 1,
            rock_free(*level, min_x as int, i as int, min_y as int, max_y as int),
            bx == respawn_box(*level, x, y),
            bx == (min_x as int, max_x as int, min_y as int, max_y as int),
            !respawn_too_close(x2, y2, old_x, old_y, x, y, min_spawn_dist_last, min_spawn_dist_enemy),
        decreases max_x - i,
    {
        let mut j = min_y;
        while j != max_y
            invariant
                level.wf(),
                min_x <= i < max_x,
                min_x >= 0,
                max_x <= level.width - 1,
                min_y <= j <= max_y,
                min_y >= 0,
                max_y <= level.height - 1,
                rock_free(*level, min_x as int, i as int, min_y as int, max_y as int),
                rock_free(*level, i as int, i + 1, min_y as int, j as int),
                bx == respawn_box(*level, x, y),
                bx == (min_x as int, max_x as int, min_y as int, max_y as int),
                !respawn_too_close(x2, y2, old_x, old_y, x, y, min_spawn_dist_last, min_spawn_dist_enemy),
            decreases max_y - j,
        {
            if level.rock(i, j) {
                assert(!rock_free(*level, min_x as int, max_x as int, min_y as int, max_y as int)) by {
                    assert(has_flag(level.flags_xy(i as int, j as int), MAT_ROCK));
                }
                return false;
            }
            j += 1;
        }
        assert(rock_free(*level, min_x as int, i + 1, min_y as int, max_y as int)) by {
            assert forall|a: int, b: int| min_x <= a < i + 1 && min_y <= b < max_y
                implies !has_flag(#[trigger] level.flags_xy(a, b), MAT_ROCK) by {
                if a < i {
                } else {
                }
            }
        }
        i += 1;
    }
    true
}

/// Clamps `(x, y)` into `[0, max_x] x [0, max_y]`: x is tested against 0 first
/// and only otherwise against `max_x`; y is raised to 0, then lowered to `max_y`.
pub fn limit_xy(x: &mut i32, y: &mut i32, max_x: i32, max_y: i32)
    ensures
        *final(x) == if *old(x) < 0 { 0 } else if *old(x) > max_x { max_x } else { *old(x) },
        *final(y) == if *old(y) < 0 {
            if 0 > max_y { max_y } else { 0 }
        } else if *old(y) > max_y {
            max_y
        } else {
            *old(y)
        },
{
    if *x < 0 {
        *x = 0;
    } else if *x > max_x {
        *x = max_x;
    }
    let yy = if *y < 0 { 0 } else { *y };
    *y = if yy > max_y { max_y } else { yy };
}

// ---------------------------------------------------------------------------
// SimState
// ---------------------------------------------------------------------------

/// The maximum health a worm starts with and is healed back to, unless the
/// game's worm settings say otherwise.
pub const DEFAULT_WORM_HEALTH: i32 = 100;

/// The simulation state as plain values: the random generator by its last
/// output, the level, the worms in order, the five object pools, the rule
/// tables the ticks read (weapons, direction table, sprite banks, textures,
/// explosion- and debris-object types), the game settings and constants, the
/// kill bookkeeping of deaths, and the game mode with its tag/hold time limit.
#[derive(Clone)]
pub struct SimState {
    /// The random generator's last output.
    pub rng_last: u32,
    /// Ticks processed so far.
    pub cycles: i32,
    pub level: LevelSim,
    pub worms: Vec<WormState>,
    pub bonuses: Pool<Bonus>,
    pub wobjects: Pool<WObject>,
    pub sobjects: Pool<SObject>,
    pub nobjects: Pool<NObject>,
    pub bobjects: BloodPool<BObject>,
    pub physics: PhysicsConsts,
    pub control: ControlConsts,
    /// The weapon parameter table.
    pub weapons: Vec<Weapon>,
    /// The 128-step cosine/sine direction table.
    pub cossin: [Vec2; 128],
    /// Whether a recoil of 128 or more counts as negative.
    pub h_signed_recoil: bool,
    /// The 16x16 sprite bank the dirt effects read.
    pub large_sprites: SpriteSet,
    /// The 7x7 sprite bank landing objects are stamped from.
    pub small_sprites: SpriteSet,
    /// The dirt-effect texture table.
    pub textures: Vec<Texture>,
    /// The explosion-object parameter table.
    pub sobject_types: Vec<SObjectType>,
    /// The debris-object parameter table.
    pub nobject_types: Vec<NObjectType>,
    /// The reload countdown a depleted weapon starts from.
    pub settings_loading_time: i32,
    /// Whether a weapon can be changed while it is still loading.
    pub load_change: bool,
    /// The blood amount, in percent.
    pub blood: i32,
    /// How many blood colours a blood particle draws from.
    pub num_blood_colours: i32,
    /// The first blood colour.
    pub first_blood_colour: i32,
    /// A blood particle's fall per tick.
    pub bobj_gravity: i32,
    /// The most bonuses at once; 0 switches the bonus drop off.
    pub settings_max_bonuses: i32,
    /// The bound of the per-tick bonus drop roll.
    pub bonus_drop_chance: i32,
    /// The bonus placement rectangle: width and height of the draws, and the
    /// offset applied when `h_bonus_spawn_rect` is set.
    pub bonus_spawn_rect_w: i32,
    pub bonus_spawn_rect_h: i32,
    pub bonus_spawn_rect_x: i32,
    pub bonus_spawn_rect_y: i32,
    pub h_bonus_spawn_rect: bool,
    /// Only health bonuses drop.
    pub h_bonus_only_health: bool,
    /// Only weapon bonuses drop.
    pub h_bonus_only_weapon: bool,
    /// No bonus drops at all.
    pub h_bonus_disable: bool,
    /// Per bonus kind, the `[base, range]` of its expiry timer.
    pub bonus_rand_timer: [[i32; 2]; 2],
    /// Per weapon, its availability (2 bans it from weapon bonuses).
    pub weap_table: Vec<i32>,
    /// A falling bonus's gravity and its bounce factor `mul / div`.
    pub bonus_gravity: i32,
    pub bonus_bounce_mul: i32,
    pub bonus_bounce_div: i32,
    /// Per bonus kind, the explosion object its expiry spawns.
    pub bonus_s_objects: [i32; 2],
    /// A worm's maximum health.
    pub settings_health: i32,
    /// The index of the most recently killed worm, -1 before any death.
    pub last_killed_idx: i32,
    /// Whether the last death changed `last_killed_idx`.
    pub got_changed: bool,
    /// The worm respawn rectangle (offset, then the bounds of its draws).
    pub worm_spawn_rect_x: i32,
    pub worm_spawn_rect_y: i32,
    pub worm_spawn_rect_w: i32,
    pub worm_spawn_rect_h: i32,
    /// The least distance of a respawn from the worm's last death, and from
    /// the enemy.
    pub worm_min_spawn_dist_last: i32,
    pub worm_min_spawn_dist_enemy: i32,
    /// 0 kill-em-all, 1 game of tag, 2 hold-a-zone, 3 scales of justice.
    pub game_mode: u32,
    /// The tag/hold time a worm loses at.
    pub time_to_lose: i32,
}

impl SimState {
    /// The state at tick 0: the random generator's last output `rng_last`, no
    /// ticks yet, the level as given, one tick-0 worm per scenario in order
    /// ([`tick0_worm`]), every pool empty at its capacity, the constants and
    /// tables as given, an empty small-sprite bank, the other settings at
    /// their defaults (worm health [`DEFAULT_WORM_HEALTH`], no bonuses, the
    /// blood colours, gravities, rectangles and distances zero, no hacks), no
    /// death yet (`last_killed_idx` -1, `got_changed` false), and kill-em-all
    /// with no time limit.
    pub fn new(
        level: LevelSim,
        worms_init: &[WormInit],
        rng_last: u32,
        physics: PhysicsConsts,
        control: ControlConsts,
        weapons: Vec<Weapon>,
        cossin: [Vec2; 128],
        h_signed_recoil: bool,
        large_sprites: SpriteSet,
        textures: Vec<Texture>,
        sobject_types: Vec<SObjectType>,
        nobject_types: Vec<NObjectType>,
        settings_loading_time: i32,
        load_change: bool,
        blood: i32,
    ) -> (r: SimState)
        ensures
            r.rng_last == rng_last,
            r.cycles == 0,
            r.level == level,
            r.worms@.len() == worms_init@.len(),
            forall|i: int| 0 <= i < worms_init@.len() ==> tick0_worm(worms_init@[i], #[trigger] r.worms@[i]),
            r.bonuses.wf(),
            r.bonuses@.len() == BONUS_CAPACITY,
            forall|i: int| 0 <= i < BONUS_CAPACITY ==> #[trigger] r.bonuses@[i] is None,
            r.wobjects.wf(),
            r.wobjects@.len() == WOBJECT_CAPACITY,
            forall|i: int| 0 <= i < WOBJECT_CAPACITY ==> #[trigger] r.wobjects@[i] is None,
            r.sobjects.wf(),
            r.sobjects@.len() == SOBJECT_CAPACITY,
            forall|i: int| 0 <= i < SOBJECT_CAPACITY ==> #[trigger] r.sobjects@[i] is None,
            r.nobjects.wf(),
            r.nobjects@.len() == NOBJECT_CAPACITY,
            forall|i: int| 0 <= i < NOBJECT_CAPACITY ==> #[trigger] r.nobjects@[i] is None,
            r.bobjects.wf(),
            r.bobjects@.len() == 0,
            r.bobjects.cap() == BLOOD_CAPACITY,
            r.physics == physics,
            r.control == control,
            r.weapons@ == weapons@,
            r.cossin@ == cossin@,
            r.h_signed_recoil == h_signed_recoil,
            r.large_sprites == large_sprites,
            r.small_sprites.width == 0,
            r.small_sprites.height == 0,
            r.small_sprites.count == 0,
            r.small_sprites.data@.len() == 0,
            r.textures@ == textures@,
            r.sobject_types@ == sobject_types@,
            r.nobject_types@ == nobject_types@,
            r.settings_loading_time == settings_loading_time,
            r.load_change == load_change,
            r.blood == blood,
            r.num_blood_colours == 0,
            r.first_blood_colour == 0,
            r.bobj_gravity == 0,
            r.settings_max_bonuses == 0,
            r.bonus_drop_chance == 0,
            r.bonus_spawn_rect_w == 0,
            r.bonus_spawn_rect_h == 0,
            r.bonus_spawn_rect_x == 0,
            r.bonus_spawn_rect_y == 0,
            !r.h_bonus_spawn_rect,
            !r.h_bonus_only_health,
            !r.h_bonus_only_weapon,
            !r.h_bonus_disable,
            r.bonus_rand_timer == [[0i32, 0i32], [0i32, 0i32]],
            r.weap_table@.len() == 0,
            r.bonus_gravity == 0,
            r.bonus_bounce_mul == 0,
            r.bonus_bounce_div == 0,
            r.bonus_s_objects == [0i32, 0i32],
            r.settings_health == DEFAULT_WORM_HEALTH,
            r.last_killed_idx == -1,
            !r.got_changed,
            r.worm_spawn_rect_x == 0,
            r.worm_spawn_rect_y == 0,
            r.worm_spawn_rect_w == 0,
            r.worm_spawn_rect_h == 0,
            r.worm_min_spawn_dist_last == 0,
            r.worm_min_spawn_dist_enemy == 0,
            r.game_mode == 0,
            r.time_to_lose == 0,
    {
        let mut worms: Vec<WormState> = Vec::new();
        let mut i: usize = 0;
        while i < worms_init.len()
            invariant
                i <= worms_init@.len(),
                worms@.len() == i,
                forall|j: int| 0 <= j < i ==> tick0_worm(worms_init@[j], #[trigger] worms@[j]),
            decreases worms_init@.len() - i,
        {
            let w = WormState::from_init(&worms_init[i]);
            worms.push(w);
            i += 1;
        }
        SimState {
            rng_last,
            cycles: 0,
            level,
            worms,
            bonuses: Pool::new(BONUS_CAPACITY),
            wobjects: Pool::new(WOBJECT_CAPACITY),
            sobjects: Pool::new(SOBJECT_CAPACITY),
            nobjects: Pool::new(NOBJECT_CAPACITY),
            bobjects: BloodPool::new(BLOOD_CAPACITY),
            physics,
            control,
            weapons,
            cossin,
            h_signed_recoil,
            large_sprites,
            small_sprites: SpriteSet { width: 0, height: 0, count: 0, data: Vec::new() },
            textures,
            sobject_types,
            nobject_types,
            settings_loading_time,
            load_change,
            blood,
            num_blood_colours: 0,
            first_blood_colour: 0,
            bobj_gravity: 0,
            settings_max_bonuses: 0,
            bonus_drop_chance: 0,
            bonus_spawn_rect_w: 0,
            bonus_spawn_rect_h: 0,
            bonus_spawn_rect_x: 0,
            bonus_spawn_rect_y: 0,
            h_bonus_spawn_rect: false,
            h_bonus_only_health: false,
            h_bonus_only_weapon: false,
            h_bonus_disable: false,
            bonus_rand_timer: [[0, 0], [0, 0]],
            weap_table: Vec::new(),
            bonus_gravity: 0,
            bonus_bounce_mul: 0,
            bonus_bounce_div: 0,
            bonus_s_objects: [0, 0],
            settings_health: DEFAULT_WORM_HEALTH,
            last_killed_idx: -1,
            got_changed: false,
            worm_spawn_rect_x: 0,
            worm_spawn_rect_y: 0,
            worm_spawn_rect_w: 0,
            worm_spawn_rect_h: 0,
            worm_min_spawn_dist_last: 0,
            worm_min_spawn_dist_enemy: 0,
            game_mode: 0,
            time_to_lose: 0,
        }
    }
}

} // verus!
