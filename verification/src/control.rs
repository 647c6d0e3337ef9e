//! The constants and hacks the worm control and aiming paths read.

use vstd::prelude::*;

verus! {

/// The constants and hacks the worm control, aiming, jump and ninjarope paths
/// read.
#[derive(Clone, Copy, PartialEq, Eq, Debug)]
pub struct ControlConsts {
    /// Aiming-speed friction numerator and denominator.
    pub aim_fric_mult: i32,
    pub aim_fric_div: i32,
    /// Aim-angle clamp bounds while facing right.
    pub aim_max_right: i32,
    pub aim_min_right: i32,
    /// Aim-angle clamp bounds while facing left.
    pub aim_max_left: i32,
    pub aim_min_left: i32,
    /// Aiming-speed clamps (left positive, right negative).
    pub max_aim_vel_left: i32,
    pub max_aim_vel_right: i32,
    /// Aiming-speed acceleration per tick.
    pub aim_acc_left: i32,
    pub aim_acc_right: i32,
    /// Leftward walk acceleration and velocity cap.
    pub walk_vel_left: i32,
    pub max_vel_left: i32,
    /// Rightward walk acceleration and velocity cap.
    pub walk_vel_right: i32,
    pub max_vel_right: i32,
    /// Upward velocity impulse of a grounded jump.
    pub jump_force: i32,
    /// Jumping without ground contact.
    pub h_air_jump: bool,
    /// Jumping repeatedly without releasing the key.
    pub h_multi_jump: bool,
    /// Rope length at throw time, and its clamps.
    pub nr_initial_length: i32,
    pub nr_min_length: i32,
    pub nr_max_length: i32,
    /// Rope length change per tick while pulling or releasing.
    pub nr_pull_vel: i32,
    pub nr_release_vel: i32,
    /// Rope throw-velocity multipliers.
    pub nr_throw_vel_x: i32,
    pub nr_throw_vel_y: i32,
}

/// The constants of the stock total conversion.
pub open spec fn default_control() -> ControlConsts {
    ControlConsts {
        aim_fric_mult: 83,
        aim_fric_div: 100,
        aim_max_right: 116,
        aim_min_right: 64,
        aim_max_left: 12,
        aim_min_left: 64,
        max_aim_vel_left: 70000,
        max_aim_vel_right: -70000i32,
        aim_acc_left: 4000,
        aim_acc_right: 4000,
        walk_vel_left: 3000,
        max_vel_left: -29184i32,
        walk_vel_right: 3000,
        max_vel_right: 29184,
        jump_force: 56064,
        h_air_jump: false,
        h_multi_jump: false,
        nr_initial_length: 4000,
        nr_min_length: 170,
        nr_max_length: 4000,
        nr_pull_vel: 24,
        nr_release_vel: 24,
        nr_throw_vel_x: 2,
        nr_throw_vel_y: 2,
    }
}

impl Default for ControlConsts {
    /// The constants of the stock total conversion.
    fn default() -> (r: Self)
        ensures
            r == default_control(),
    {
        ControlConsts {
            aim_fric_mult: 83,
            aim_fric_div: 100,
            aim_max_right: 116,
            aim_min_right: 64,
            aim_max_left: 12,
            aim_min_left: 64,
            max_aim_vel_left: 70000,
            max_aim_vel_right: -70000,
            aim_acc_left: 4000,
            aim_acc_right: 4000,
            walk_vel_left: 3000,
            max_vel_left: -29184,
            walk_vel_right: 3000,
            max_vel_right: 29184,
            jump_force: 56064,
            h_air_jump: false,
            h_multi_jump: false,
            nr_initial_length: 4000,
            nr_min_length: 170,
            nr_max_length: 4000,
            nr_pull_vel: 24,
            nr_release_vel: 24,
            nr_throw_vel_x: 2,
            nr_throw_vel_y: 2,
        }
    }
}

} // verus!
