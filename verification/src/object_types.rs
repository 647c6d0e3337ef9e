//! The object type tables: what the simulation reads of a weapon, a
//! non-weapon object type and an explosion object type.

use vstd::prelude::*;

verus! {

/// A weapon: how it fires and how its projectiles fly and explode.
#[derive(Clone, Copy, PartialEq, Eq, Debug, Default)]
pub struct Weapon {
    /// The weapon's index in the weapon table.
    pub id: i32,
    /// Starting ammo of a freshly loaded slot.
    pub ammo: i32,
    /// Ticks between shots.
    pub delay: i32,
    pub fire_cone: i32,
    /// Muzzle distance from the worm, minus 5 pixels.
    pub detect_distance: i32,
    /// A shell is dropped when a draw below this is 0 (never when 0).
    pub leave_shells: i32,
    pub leave_shell_delay: i32,
    /// Launch speed, in hundredths of the unit direction.
    pub speed: i32,
    /// The worm's own velocity carries into the shot.
    pub affect_by_worm: bool,
    /// Projectiles per shot.
    pub parts: i32,
    pub recoil: i32,
    /// Spread: each velocity component moves by a draw below `2 * distribution`,
    /// minus `distribution`.
    pub distribution: i32,
    pub start_frame: i32,
    /// 0 normal, 1 directional sprite, 2 steerable, 3 angle-framed, 4 laser.
    pub shot_type: i32,
    pub loop_anim: bool,
    pub num_frames: i32,
    pub color_bullets: i32,
    pub time_to_explo: i32,
    pub time_to_explo_v: i32,
    pub bounce: i32,
    pub mult_speed: i32,
    pub obj_trail_type: i32,
    pub part_trail_obj: i32,
    /// Hitting the ground explodes the projectile.
    pub expl_ground: bool,
    pub gravity: i32,
    /// The explosion object type spawned on explosion, or negative.
    pub create_on_exp: i32,
    /// The dirt effect carved on explosion, or negative.
    pub dirt_effect: i32,
    pub splinter_amount: i32,
    pub chain_explosion: bool,
    /// Explosions push the projectile.
    pub affect_by_explosions: bool,
}

/// A non-weapon object type (debris, splinters, blood, gibs, shells).
#[derive(Clone, Copy, PartialEq, Eq, Debug, Default)]
pub struct NObjectType {
    /// The type's index in the type table.
    pub id: i32,
    pub speed: i32,
    /// The speed is lowered by a draw below `speed_v`.
    pub speed_v: i32,
    pub distribution: i32,
    pub start_frame: i32,
    pub num_frames: i32,
    pub color_bullets: i32,
    pub time_to_explo: i32,
    pub time_to_explo_v: i32,
    /// Percentage of velocity kept on a bounce; 0 for no bounce.
    pub bounce: i32,
    pub blood_trail: bool,
    pub blood_trail_delay: i32,
    pub expl_ground: bool,
    pub draw_on_map: bool,
    pub leave_obj: i32,
    pub leave_obj_delay: i32,
    pub gravity: i32,
    pub hit_damage: i32,
    pub detect_distance: i32,
    pub create_on_exp: i32,
    pub dirt_effect: i32,
    pub splinter_amount: i32,
    pub splinter_type: i32,
    pub splinter_colour: i32,
    pub affect_by_explosions: bool,
}

/// An explosion object type.
#[derive(Clone, Copy, PartialEq, Eq, Debug, Default)]
pub struct SObjectType {
    /// The type's index in the type table.
    pub id: i32,
    /// First sound index, or negative for a silent explosion.
    pub start_sound: i32,
    pub num_sounds: i32,
    /// Ticks per animation frame.
    pub anim_delay: i32,
    pub start_frame: i32,
    pub num_frames: i32,
    /// Half-width of the blast box.
    pub detect_range: i32,
    pub damage: i32,
    pub blow_away: i32,
    /// The dirt effect carved by the explosion, or negative.
    pub dirt_effect: i32,
}

} // verus!
