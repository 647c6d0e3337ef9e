use sim::fixed::{itof, Vec2};
use sim::physics::{
    calculate_reaction_force, worm_process_physics, worm_reactions, PhysicsConsts, COL_POINT_COUNT, RF_DOWN,
    RF_LEFT, RF_RIGHT, RF_UP,
};
use sim::state::{LevelSim, WeaponInit, WormInit, WormState, MAT_BACKGROUND, NUM_WEAPONS};

const ALL_DIRS: [usize; 4] = [RF_DOWN, RF_LEFT, RF_UP, RF_RIGHT];

fn uniform_level(width: i32, height: i32, mat: u8) -> LevelSim {
    let mut material_flags = [0u8; 256];
    material_flags[1] = MAT_BACKGROUND;
    material_flags[2] = 1 << 2;
    LevelSim { width, height, material_id: vec![mat; (width * height) as usize], material_flags }
}

#[test]
fn all_background_neighbourhood_reacts_zero() {
    let level = uniform_level(64, 64, 1);
    let (x, y) = (32, 32);
    for &dir in &ALL_DIRS {
        let mut reacts = [9; 4];
        calculate_reaction_force(&level, x, y, dir, &mut reacts);
        assert_eq!(reacts[dir], 0, "dir {dir}: all-background -> 0");
    }
}

#[test]
fn fully_solid_neighbourhood_reacts_full_count() {
    let level = uniform_level(64, 64, 2);
    let (x, y) = (32, 32);
    for &dir in &ALL_DIRS {
        let mut reacts = [0; 4];
        calculate_reaction_force(&level, x, y, dir, &mut reacts);
        assert_eq!(reacts[dir], COL_POINT_COUNT[dir], "dir {dir}: all-solid -> kColPointCount[dir]");
    }
    let mut r = [0; 4];
    calculate_reaction_force(&level, x, y, RF_DOWN, &mut r);
    assert_eq!(r[RF_DOWN], 3);
    calculate_reaction_force(&level, x, y, RF_UP, &mut r);
    assert_eq!(r[RF_UP], 3);
    calculate_reaction_force(&level, x, y, RF_LEFT, &mut r);
    assert_eq!(r[RF_LEFT], 7);
    calculate_reaction_force(&level, x, y, RF_RIGHT, &mut r);
    assert_eq!(r[RF_RIGHT], 7);
}

fn background_level(width: i32, height: i32) -> LevelSim {
    uniform_level(width, height, 1)
}

fn set_solid(level: &mut LevelSim, x: i32, y: i32) {
    let idx = (x + y * level.width) as usize;
    level.material_id[idx] = 2;
}

#[test]
fn partial_pattern_down_counts_exact_probe_offsets() {
    let (cx, cy) = (32, 32);
    let mut level = background_level(64, 64);
    set_solid(&mut level, cx - 1, cy - 4);
    set_solid(&mut level, cx + 1, cy - 4);
    set_solid(&mut level, cx, cy);
    let mut reacts = [0; 4];
    calculate_reaction_force(&level, cx, cy, RF_DOWN, &mut reacts);
    assert_eq!(reacts[RF_DOWN], 2, "two of three DOWN probes are solid");
}

#[test]
fn partial_pattern_left_counts_exact_probe_offsets() {
    let (cx, cy) = (32, 32);
    let mut level = background_level(64, 64);
    set_solid(&mut level, cx + 1, cy - 3);
    set_solid(&mut level, cx + 1, cy);
    set_solid(&mut level, cx + 1, cy + 3);
    set_solid(&mut level, cx - 1, cy - 3);
    set_solid(&mut level, cx - 1, cy + 1);
    let mut reacts = [0; 4];
    calculate_reaction_force(&level, cx, cy, RF_LEFT, &mut reacts);
    assert_eq!(reacts[RF_LEFT], 3, "three of seven LEFT probes are solid");
}

#[test]
fn partial_pattern_right_uses_opposite_column_from_left() {
    let (cx, cy) = (32, 32);
    let mut level = background_level(64, 64);
    set_solid(&mut level, cx - 1, cy - 2);
    set_solid(&mut level, cx - 1, cy - 1);
    set_solid(&mut level, cx - 1, cy);
    set_solid(&mut level, cx - 1, cy + 1);
    set_solid(&mut level, cx + 1, cy - 3);
    set_solid(&mut level, cx + 1, cy + 3);
    let mut reacts = [0; 4];
    calculate_reaction_force(&level, cx, cy, RF_RIGHT, &mut reacts);
    assert_eq!(reacts[RF_RIGHT], 4, "four of seven RIGHT probes are solid");
    calculate_reaction_force(&level, cx, cy, RF_LEFT, &mut reacts);
    assert_eq!(reacts[RF_LEFT], 2, "LEFT reads x+1 column independently");
}

#[test]
fn partial_pattern_up_probes_positive_y_offsets() {
    let (cx, cy) = (32, 32);
    let mut level = background_level(64, 64);
    set_solid(&mut level, cx, cy + 4);
    set_solid(&mut level, cx, cy - 4);
    let mut reacts = [0; 4];
    calculate_reaction_force(&level, cx, cy, RF_UP, &mut reacts);
    assert_eq!(reacts[RF_UP], 1, "only the (0,+4) UP probe is solid");
}

#[test]
fn resets_reacts_dir_each_call_and_leaves_others_untouched() {
    let level = uniform_level(64, 64, 1);
    let mut reacts = [5, 6, 7, 8];
    calculate_reaction_force(&level, 32, 32, RF_LEFT, &mut reacts);
    assert_eq!(reacts[RF_LEFT], 0, "dir reset to 0 then accumulated");
    assert_eq!([reacts[RF_DOWN], reacts[RF_UP], reacts[RF_RIGHT]], [5, 7, 8], "other directions are untouched");
}

fn worm_at(pos: Vec2, vel: Vec2) -> WormState {
    let init = WormInit {
        index: 0,
        health: 100,
        lives: 10,
        stats_x: 0,
        weapons: [WeaponInit::default(); NUM_WEAPONS],
        start_pos: pos,
        visible: true,
    };
    let mut w = WormState::from_init(&init);
    w.vel = vel;
    w
}

fn all_background_level(width: i32, height: i32) -> LevelSim {
    let mut material_flags = [0u8; 256];
    material_flags[0] = MAT_BACKGROUND;
    material_flags[1] = MAT_BACKGROUND;
    LevelSim { width, height, material_id: vec![1u8; (width * height) as usize], material_flags }
}

#[test]
fn free_fall_gravity_and_integration_hand_folded() {
    let level = all_background_level(200, 200);
    let c = PhysicsConsts::default();
    let start = itof(100);
    let mut w = worm_at(Vec2::new(start, start), Vec2::zero());

    let r = worm_reactions(&level, &mut w, &c);
    assert_eq!(r, [0, 0, 0, 0], "mid-air -> no reactions");
    worm_process_physics(&mut w, &r, &c);
    assert_eq!(w.vel.y, 1500);
    assert_eq!(w.pos.y, start + 1500);
    assert_eq!(w.vel.x, 0);
    assert_eq!(w.pos.x, start, "no horizontal motion");

    let r = worm_reactions(&level, &mut w, &c);
    assert_eq!(r, [0, 0, 0, 0]);
    worm_process_physics(&mut w, &r, &c);
    assert_eq!(w.vel.y, 3000);
    assert_eq!(w.pos.y, start + 1500 + 3000);

    let r = worm_reactions(&level, &mut w, &c);
    worm_process_physics(&mut w, &r, &c);
    assert_eq!(w.vel.y, 4500);
    assert_eq!(w.pos.y, start + 9000, "sum of 1500,3000,4500");
}

#[test]
fn vertical_bounce_flips_sign_truncates_and_suppresses_integration() {
    let c = PhysicsConsts::default();
    let reacts = [2, 0, 3, 0];
    let pos0 = itof(50);
    let mut w = worm_at(Vec2::new(pos0, pos0), Vec2::new(0, 200000));
    worm_process_physics(&mut w, &reacts, &c);
    assert_eq!(w.vel.y, -66666, "sign flip + /3 truncation toward zero");
    assert_eq!(w.pos.y, pos0, "integration suppressed by reacts[down] >= 2");
}

#[test]
fn vertical_slow_velocity_stops() {
    let c = PhysicsConsts::default();
    let reacts = [2, 0, 3, 0];
    let pos0 = itof(50);
    let mut w = worm_at(Vec2::new(pos0, pos0), Vec2::new(0, 40000));
    worm_process_physics(&mut w, &reacts, &c);
    assert_eq!(w.vel.y, 0, "slow velocity stops dead");
    assert_eq!(w.pos.y, pos0, "no integration after stop (vel.y==0)");
}

#[test]
fn horizontal_friction_truncates_toward_zero_on_negative() {
    let c = PhysicsConsts::default();
    let reacts = [0, 0, 1, 0];
    let pos0 = itof(50);
    let mut w = worm_at(Vec2::new(pos0, pos0), Vec2::new(-1234, 0));
    worm_process_physics(&mut w, &reacts, &c);
    assert_eq!(w.vel.x, -1098, "friction truncates toward zero, not floor");
    assert_eq!(w.pos.x, pos0 - 1098);
}

#[test]
fn edge_addition_low_y_accumulates_four_times() {
    let level = all_background_level(200, 200);
    let c = PhysicsConsts::default();
    let mut w = worm_at(Vec2::new(itof(100), itof(2)), Vec2::zero());
    let r = worm_reactions(&level, &mut w, &c);
    assert_eq!(r, [20, 0, 0, 0], "low-y edge add accumulates 4x into kRfDown");
}

#[test]
fn edge_addition_low_x_partly_wiped_by_later_reset() {
    let level = all_background_level(200, 200);
    let c = PhysicsConsts::default();
    let mut w = worm_at(Vec2::new(itof(2), itof(100)), Vec2::zero());
    let r = worm_reactions(&level, &mut w, &c);
    assert_eq!(r, [0, 0, 0, 5], "low-x edge add to kRfRight is reset at i=3, only last +5 survives");
}

#[test]
fn edge_addition_high_x_accumulates_into_left() {
    let level = all_background_level(200, 200);
    let c = PhysicsConsts::default();
    let mut w = worm_at(Vec2::new(itof(198), itof(100)), Vec2::zero());
    let r = worm_reactions(&level, &mut w, &c);
    assert_eq!(r, [0, 15, 0, 0], "high-x edge add: i=1..3 survive -> 15");
}

#[test]
fn worm_float_hack_subtracts_power_once_per_direction() {
    let level = all_background_level(200, 400);
    let mut c = PhysicsConsts::default();
    c.h_worm_float = true;
    c.worm_float_level = 100;
    c.worm_float_power = -10;
    let mut w = worm_at(Vec2::new(itof(100), itof(300)), Vec2::zero());
    let r = worm_reactions(&level, &mut w, &c);
    assert_eq!(r, [0, 0, 0, 0], "the float hack replaces the floor reaction");
    assert_eq!(w.vel.y, 40, "four iterations each subtract the float power");
}

#[test]
fn nudge_up_moves_pos_y_one_pixel_and_reprobes_the_sides() {
    // A floor under the worm plus a wall on its right: pushed up and sideways,
    // not pushed down -> pos.y moves up one pixel.
    let mut level = uniform_level(64, 64, 1);
    for x in 0..64 {
        set_solid(&mut level, x, 44);
    }
    for y in 30..44 {
        set_solid(&mut level, 33, y);
    }
    let c = PhysicsConsts::default();
    let mut w = worm_at(Vec2::new(itof(32), itof(40)), Vec2::zero());
    let r = worm_reactions(&level, &mut w, &c);
    assert_eq!(w.pos.y, itof(40) - 65536);
    assert_eq!(r[RF_UP], 3);
    assert_eq!(r[RF_LEFT], 7, "the right wall column re-probed at y - 1");
}

#[test]
fn hard_horizontal_bounce_costs_fall_damage_under_the_hack() {
    let mut c = PhysicsConsts::default();
    c.h_fall_damage = true;
    c.fall_damage_right = 7;
    let reacts = [0, 1, 0, 0];
    let mut w = worm_at(Vec2::new(itof(50), itof(50)), Vec2::new(90000, 0));
    worm_process_physics(&mut w, &reacts, &c);
    assert_eq!(w.vel.x, -30000);
    assert_eq!(w.health, 93);
    assert_eq!(w.vel.y, 1500, "gravity still applies without an up reaction");
}
