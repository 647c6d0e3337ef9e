use sim::fixed::{itof, Vec2};
use sim::object_types::Weapon;
use sim::pool::Pool;
use sim::state::{LevelSim, WObject, WeaponInit, WormInit, WormState, MAT_ROCK, NUM_WEAPONS};
use sim::draws::Draws;
use sim::weapon::{draw_fire, draw_shot, weapon_fire, wobject_process, worm_fire, ShotDraws, WObjectOutcome, ST_NORMAL, ST_TYPE1};

fn cossin() -> [Vec2; 128] {
    let mut t = [Vec2::zero(); 128];
    for (i, c) in t.iter_mut().enumerate() {
        *c = Vec2::new((i as i32 - 64) * 1000, (32 - i as i32) * 500);
    }
    t
}

/// The fan's firing and flight parameters.
fn fan_weapon(id: i32) -> Weapon {
    Weapon {
        id,
        speed: 180,
        affect_by_worm: true,
        distribution: 12000,
        parts: 1,
        delay: 0,
        fire_cone: 0,
        detect_distance: 1,
        recoil: 2,
        start_frame: -1,
        color_bullets: 25,
        time_to_explo: 45,
        time_to_explo_v: 10,
        leave_shells: 0,
        shot_type: ST_NORMAL,
        mult_speed: 100,
        obj_trail_type: -1,
        part_trail_obj: -1,
        gravity: 0,
        ..Default::default()
    }
}

fn firing_worm(ammo: i32) -> WormState {
    let mut weapons = [WeaponInit::default(); NUM_WEAPONS];
    weapons[0] = WeaponInit { ty: Some(0), ammo };
    let mut w = WormState::from_init(&WormInit {
        index: 1,
        health: 100,
        lives: 5,
        stats_x: 0,
        weapons,
        start_pos: Vec2::new(6_553_600, 3_276_800),
        visible: true,
    });
    w.aiming_angle = itof(32);
    w.vel = Vec2::new(200_000, -100_000);
    w.current_weapon = 0;
    w
}

const FAN_SHOT: ShotDraws = ShotDraws { spread_x: 5000, spread_y: 20000, frame: 1, time: 7 };

/// Distinct raw outputs, so a reordered or miscounted draw shows.
fn distinct_tape(n: usize) -> Vec<u32> {
    let mut x: u32 = 0x4242;
    (0..n)
        .map(|_| {
            x = x.wrapping_mul(1664525).wrapping_add(1013904223);
            x
        })
        .collect()
}

/// The worm fires its current weapon of `weapons`, reading the draws from
/// `raw` ([`draw_fire`]); returns the projectile pool and the tape.
fn fire_on_tape(worm: &mut WormState, weapons: &[Weapon], raw: &[u32]) -> (Pool<WObject>, Draws) {
    let table = cossin();
    let mut pool: Pool<WObject> = Pool::new(600);
    let mut draws = Draws::new(raw.to_vec());
    let id = worm.weapons[worm.current_weapon as usize].ty.expect("current slot has a weapon");
    let (shell, shots) = draw_fire(&weapons[id as usize], &mut draws);
    worm_fire(worm, weapons, &table, false, shell, &shots, &mut pool);
    (pool, draws)
}

#[test]
fn fan_fire_spawns_one_wobject_with_spread_vel_x_then_y() {
    let table = cossin();
    let fan = fan_weapon(7);
    let mut worm = firing_worm(150);
    let pre_vel = worm.vel;
    let raw = distinct_tape(8);
    // Reference replay: the four fan draws in order.
    let mut refr = Draws::new(raw.clone());
    let d_spread_x = refr.bound(24000) as i32;
    let d_spread_y = refr.bound(24000) as i32;
    let d_color = refr.bound(2) as i32;
    let d_time = refr.bound(10) as i32;
    assert_ne!(d_spread_x, d_spread_y, "the tape must give distinct x/y draws so an order swap is detectable");
    let (pool, _) = fire_on_tape(&mut worm, &[fan], &raw);
    assert_eq!(pool.len(), 1, "fan parts = 1 -> exactly one wobject");
    let obj = *pool.get(0).expect("wobject spawned in slot 0");
    let firing_vel = pre_vel.mul(100).div(180);
    let base = table[32].mul(180).div(100).add(firing_vel);
    assert_eq!(obj.vel.x, base.x + (d_spread_x - 12000), "vel.x uses the FIRST rand(24000)");
    assert_eq!(obj.vel.y, base.y + (d_spread_y - 12000), "vel.y uses the SECOND rand(24000)");
    assert_eq!(obj.cur_frame, 25 - d_color, "cur_frame = 25 - rand(2)");
    assert_eq!(obj.time_left, 45 - d_time, "time_left = 45 - rand(10)");
    assert_eq!(obj.owner_idx, 1, "owner_idx = worm.index");
    assert_eq!(obj.ty, Some(7), "ty = weapon id");
}

#[test]
fn fan_fire_draws_exactly_four_rands_in_order() {
    let fan = fan_weapon(0);
    let mut worm = firing_worm(150);
    let raw = distinct_tape(8);
    let mut refr = Draws::new(raw.clone());
    refr.bound(24000);
    refr.bound(24000);
    refr.bound(2);
    refr.bound(10);
    let (_, draws) = fire_on_tape(&mut worm, &[fan], &raw);
    assert_eq!(draws.used(), refr.used(), "fan must draw exactly 4 rands (no leave-shell draw)");
    assert_eq!(draws.used(), 4);
    assert_eq!(worm.leave_shell_timer, 0, "no leave-shell draw/timer for fan");
}

#[test]
fn fan_fire_updates_worm_ammo_delay_firecone_and_recoil() {
    let table = cossin();
    let fan = fan_weapon(7);
    let mut worm = firing_worm(150);
    let pre_vel = worm.vel;
    let mut pool: Pool<WObject> = Pool::new(600);
    worm_fire(&mut worm, &[fan], &table, false, 0, &vec![FAN_SHOT], &mut pool);
    assert_eq!(worm.weapons[0].ammo, 149, "ammo decremented");
    assert_eq!(worm.weapons[0].delay_left, 0, "delay_left = w.delay (0)");
    assert_eq!(worm.fire_cone, 0, "fire_cone = w.fire_cone (0)");
    let expected = pre_vel.sub(table[32].mul(2).div(100));
    assert_eq!(worm.vel, expected, "recoil applied after parts loop");
}

fn synth_weapon(id: i32, speed: i32, recoil: i32, affect_by_worm: bool) -> Weapon {
    Weapon {
        id,
        speed,
        recoil,
        affect_by_worm,
        distribution: 0,
        parts: 1,
        delay: 0,
        fire_cone: 0,
        detect_distance: 1,
        time_to_explo: 45,
        time_to_explo_v: 0,
        start_frame: 0,
        shot_type: ST_NORMAL,
        loop_anim: false,
        num_frames: 0,
        color_bullets: 25,
        leave_shells: 0,
        ..Default::default()
    }
}

#[test]
fn affect_by_worm_clamps_speed_and_carries_firing_vel() {
    let table = cossin();
    let w = synth_weapon(2, 50, 0, true);
    let mut worm = firing_worm(10);
    let pre_vel = worm.vel;
    let mut pool: Pool<WObject> = Pool::new(8);
    worm_fire(&mut worm, &[w], &table, false, 0, &vec![ShotDraws::default()], &mut pool);
    let obj = *pool.get(0).unwrap();
    let firing_vel = pre_vel.mul(100).div(100);
    let expected = table[32].mul(100).div(100).add(firing_vel);
    assert_eq!(obj.vel, expected, "speed clamped to 100, firing_vel = vel");
}

#[test]
fn no_affect_by_worm_leaves_firing_vel_zero_and_speed_untouched() {
    let table = cossin();
    let w = synth_weapon(2, 200, 0, false);
    let mut worm = firing_worm(10);
    let mut pool: Pool<WObject> = Pool::new(8);
    worm_fire(&mut worm, &[w], &table, false, 0, &vec![ShotDraws::default()], &mut pool);
    let obj = *pool.get(0).unwrap();
    assert_eq!(obj.vel, table[32].mul(200).div(100), "no affect_by_worm: firing_vel 0, speed kept");
}

#[test]
fn signed_recoil_hack_subtracts_256_when_recoil_ge_128() {
    let table = cossin();
    let w = synth_weapon(2, 100, 200, false);
    let mut worm_on = firing_worm(10);
    let pre = worm_on.vel;
    let mut pool: Pool<WObject> = Pool::new(8);
    worm_fire(&mut worm_on, &[w], &table, true, 0, &vec![ShotDraws::default()], &mut pool);
    assert_eq!(worm_on.vel, pre.sub(table[32].mul(-56).div(100)), "hack on: recoil -= 256 -> -56");
    let mut worm_off = firing_worm(10);
    let mut pool2: Pool<WObject> = Pool::new(8);
    worm_fire(&mut worm_off, &[w], &table, false, 0, &vec![ShotDraws::default()], &mut pool2);
    assert_eq!(worm_off.vel, pre.sub(table[32].mul(200).div(100)), "hack off: recoil stays 200");
    assert_ne!(worm_on.vel, worm_off.vel, "the HSignedRecoil branch must change the recoil sign");
}

#[test]
fn fan_recoil_two_is_below_signed_recoil_threshold() {
    let table = cossin();
    let fan = fan_weapon(7);
    let mut worm_on = firing_worm(150);
    let mut p1: Pool<WObject> = Pool::new(8);
    worm_fire(&mut worm_on, &[fan], &table, true, 0, &vec![FAN_SHOT], &mut p1);
    let mut worm_off = firing_worm(150);
    let mut p2: Pool<WObject> = Pool::new(8);
    worm_fire(&mut worm_off, &[fan], &table, false, 0, &vec![FAN_SHOT], &mut p2);
    assert_eq!(worm_on.vel, worm_off.vel, "fan recoil 2 < 128: HSignedRecoil is a no-op");
}

#[test]
fn weapon_fire_returns_spawned_slot() {
    let table = cossin();
    let fan = fan_weapon(7);
    let mut pool: Pool<WObject> = Pool::new(8);
    let slot = weapon_fire(&fan, 32, Vec2::zero(), fan.speed, Vec2::new(1, 2), 1, &table, &FAN_SHOT, &mut pool);
    assert_eq!(slot, Some(0), "spawn returns the slot index");
    let mut full: Pool<WObject> = Pool::new(0);
    assert_eq!(weapon_fire(&fan, 32, Vec2::zero(), fan.speed, Vec2::zero(), 1, &table, &FAN_SHOT, &mut full), None);
    // The lowest free slot is reused.
    assert_eq!(weapon_fire(&fan, 32, Vec2::zero(), fan.speed, Vec2::zero(), 1, &table, &FAN_SHOT, &mut pool), Some(1));
    pool.free(0);
    assert_eq!(weapon_fire(&fan, 32, Vec2::zero(), fan.speed, Vec2::zero(), 1, &table, &FAN_SHOT, &mut pool), Some(0));
}

#[test]
fn shell_roll_of_zero_arms_the_shell_timer() {
    let table = cossin();
    let w = Weapon { leave_shells: 3, leave_shell_delay: 40, ..synth_weapon(2, 100, 0, false) };
    let mut worm = firing_worm(10);
    let mut pool: Pool<WObject> = Pool::new(8);
    worm_fire(&mut worm, &[w], &table, false, 0, &vec![ShotDraws::default()], &mut pool);
    assert_eq!(worm.leave_shell_timer, 40);
    let mut worm2 = firing_worm(10);
    worm_fire(&mut worm2, &[w], &table, false, 2, &vec![ShotDraws::default()], &mut pool);
    assert_eq!(worm2.leave_shell_timer, 0);
}

#[test]
fn directional_shot_frame_follows_the_aim() {
    let table = cossin();
    let dart = Weapon { shot_type: ST_TYPE1, ..synth_weapon(1, 100, 0, false) };
    let mut pool: Pool<WObject> = Pool::new(8);
    weapon_fire(&dart, 100, Vec2::zero(), 100, Vec2::zero(), 0, &table, &ShotDraws::default(), &mut pool);
    weapon_fire(&dart, 5, Vec2::zero(), 100, Vec2::zero(), 0, &table, &ShotDraws::default(), &mut pool);
    weapon_fire(&dart, 127, Vec2::zero(), 100, Vec2::zero(), 0, &table, &ShotDraws::default(), &mut pool);
    assert_eq!(pool.get(0).unwrap().cur_frame, (99 - 12) >> 3);
    assert_eq!(pool.get(1).unwrap().cur_frame, 0, "clamped below at 0");
    assert_eq!(pool.get(2).unwrap().cur_frame, 12, "clamped above at 12");
}

fn air_level() -> LevelSim {
    LevelSim { width: 1000, height: 1000, material_id: vec![0u8; 1000 * 1000], material_flags: [0u8; 256] }
}

fn floor_level() -> LevelSim {
    let mut material_flags = [0u8; 256];
    material_flags[1] = MAT_ROCK;
    let mut material_id = vec![0u8; 20 * 20];
    material_id[10 + 10 * 20] = 1;
    LevelSim { width: 20, height: 20, material_id, material_flags }
}

fn proc_weapon(expl_ground: bool, gravity: i32, time_to_explo: i32) -> Weapon {
    Weapon {
        id: 1,
        shot_type: ST_NORMAL,
        bounce: 0,
        mult_speed: 100,
        gravity,
        expl_ground,
        time_to_explo,
        num_frames: 0,
        obj_trail_type: -1,
        part_trail_obj: -1,
        ..Default::default()
    }
}

#[test]
fn fan_free_flight_is_a_straight_line_with_constant_velocity() {
    let fan = fan_weapon(7);
    let level = air_level();
    let vel = Vec2::new(itof(3), itof(-1));
    let mut obj = WObject { pos: Vec2::new(itof(100), itof(200)), vel, time_left: 100, ty: Some(fan.id), ..WObject::default() };
    let mut expected = obj.pos;
    for tick in 0..3 {
        let out = wobject_process(&mut obj, &level, &fan);
        assert_eq!(out, WObjectOutcome::Keep, "tick {tick} keeps the object");
        expected = expected.add(vel);
        assert_eq!(obj.pos, expected, "pos advanced by vel on tick {tick}");
        assert_eq!(obj.vel, vel, "gravity 0 -> vel unchanged on tick {tick}");
    }
}

#[test]
fn boundary_clamp_pins_pos_to_each_edge() {
    let w = proc_weapon(false, 0, 0);
    let level = LevelSim { width: 10, height: 10, material_id: vec![0u8; 100], material_flags: [0u8; 256] };
    let run = |pos: Vec2, vel: Vec2| -> WObject {
        let mut obj = WObject { pos, vel, time_left: 100, ty: Some(w.id), ..WObject::default() };
        wobject_process(&mut obj, &level, &w);
        obj
    };
    assert_eq!(run(Vec2::new(itof(9), itof(5)), Vec2::new(itof(5), 0)).pos.x, itof(9), "right edge clamps pos.x to Itof(width-1)");
    assert_eq!(run(Vec2::new(itof(1), itof(5)), Vec2::new(itof(-5), 0)).pos.x, 0, "left edge clamps pos.x to 0");
    assert_eq!(run(Vec2::new(itof(5), itof(1)), Vec2::new(0, itof(-5))).pos.y, 0, "top edge clamps pos.y to 0");
    assert_eq!(run(Vec2::new(itof(5), itof(9)), Vec2::new(0, itof(5))).pos.y, itof(9), "bottom edge clamps pos.y to Itof(height-1)");
}

#[test]
fn dirt_rock_collision_with_expl_ground_returns_explode() {
    let w = proc_weapon(true, 0, 0);
    let level = floor_level();
    let mut obj = WObject { pos: Vec2::new(itof(8), itof(10)), vel: Vec2::new(itof(1), 0), time_left: 100, ty: Some(w.id), ..WObject::default() };
    assert_eq!(wobject_process(&mut obj, &level, &w), WObjectOutcome::Explode, "DirtRock + expl_ground -> Explode");
}

#[test]
fn air_tick_adds_gravity_and_keeps() {
    let w = proc_weapon(true, 1000, 0);
    let level = floor_level();
    let mut obj = WObject { pos: Vec2::new(itof(2), itof(2)), vel: Vec2::new(itof(1), 0), time_left: 100, ty: Some(w.id), ..WObject::default() };
    assert_eq!(wobject_process(&mut obj, &level, &w), WObjectOutcome::Keep, "free air -> Keep");
    assert_eq!(obj.vel.y, 1000, "air branch adds gravity to vel.y");
}

#[test]
fn dirt_rock_collision_without_expl_ground_zeroes_velocity() {
    let w = proc_weapon(false, 0, 0);
    let level = floor_level();
    let mut obj = WObject { pos: Vec2::new(itof(8), itof(10)), vel: Vec2::new(itof(1), 0), time_left: 100, ty: Some(w.id), ..WObject::default() };
    assert_eq!(wobject_process(&mut obj, &level, &w), WObjectOutcome::Keep, "no expl_ground -> Keep");
    assert_eq!(obj.vel, Vec2::zero(), "ground hit without expl_ground zeroes vel");
}

#[test]
fn timeout_explodes_when_time_left_goes_negative() {
    let fan = fan_weapon(7);
    let level = air_level();
    let mut at_zero = WObject { pos: Vec2::new(itof(100), itof(100)), vel: Vec2::new(itof(1), 0), time_left: 0, ty: Some(fan.id), ..WObject::default() };
    assert_eq!(wobject_process(&mut at_zero, &level, &fan), WObjectOutcome::Explode, "time_left 0 -> explodes on this tick");
    let mut at_one = WObject { pos: Vec2::new(itof(100), itof(100)), vel: Vec2::new(itof(1), 0), time_left: 1, ty: Some(fan.id), ..WObject::default() };
    assert_eq!(wobject_process(&mut at_one, &level, &fan), WObjectOutcome::Keep, "time_left 1 -> survives this tick");
    assert_eq!(at_one.time_left, 0, "time_left decremented to 0");
}

#[test]
fn fan_process_draws_no_rng() {
    let fan = fan_weapon(7);
    let level = air_level();
    let mut obj = WObject { pos: Vec2::new(itof(100), itof(100)), vel: Vec2::new(itof(2), 0), time_left: 100, ty: Some(fan.id), ..WObject::default() };
    assert_eq!(wobject_process(&mut obj, &level, &fan), WObjectOutcome::Keep, "free flight keeps");
    assert_eq!(obj.vel, Vec2::new(itof(2), 0), "gravity 0 -> vel unchanged");
}

#[test]
fn dart_flows_through_process_like_a_normal_projectile() {
    let dart = Weapon {
        id: 1,
        shot_type: ST_TYPE1,
        bounce: 0,
        mult_speed: 100,
        num_frames: 0,
        obj_trail_type: -1,
        part_trail_obj: -1,
        gravity: 200,
        time_to_explo: 0,
        expl_ground: true,
        ..Default::default()
    };
    let level = air_level();
    const FIRE_CUR_FRAME: i32 = 7;
    let vel0 = Vec2::new(itof(3), itof(-2));
    let mut obj = WObject { pos: Vec2::new(itof(100), itof(200)), vel: vel0, cur_frame: FIRE_CUR_FRAME, time_left: 0, ty: Some(dart.id), ..WObject::default() };
    let mut exp_pos = obj.pos;
    let mut exp_vel = vel0;
    for tick in 0..5 {
        assert_eq!(wobject_process(&mut obj, &level, &dart), WObjectOutcome::Keep, "dart free flight keeps on tick {tick}");
        exp_pos = exp_pos.add(exp_vel);
        exp_vel.y = exp_vel.y.wrapping_add(dart.gravity);
        assert_eq!(obj.pos, exp_pos, "dart pos arcs under gravity on tick {tick}");
        assert_eq!(obj.vel, exp_vel, "dart vel gains gravity on tick {tick}");
        assert_eq!(obj.cur_frame, FIRE_CUR_FRAME, "num_frames = 0 -> cur_frame frozen on tick {tick}");
    }
    assert_eq!(obj.time_left, 0, "no fuse: time_left untouched");
}

fn raw_for(d: u32, n: u32) -> u32 {
    ((((d as u64) << 32) + n as u64 - 1) / n as u64) as u32
}

#[test]
fn draw_fire_reads_the_shell_roll_then_each_shot_in_order() {
    let w = Weapon {
        id: 0,
        leave_shells: 3,
        parts: 2,
        distribution: 100,
        start_frame: -1,
        color_bullets: 10,
        ..Default::default()
    };
    let mut draws = Draws::new(vec![
        raw_for(0, 3),
        raw_for(150, 200),
        raw_for(20, 200),
        raw_for(1, 2),
        raw_for(5, 200),
        raw_for(199, 200),
        raw_for(0, 2),
        7,
    ]);
    let (shell, shots) = draw_fire(&w, &mut draws);
    assert_eq!(shell, 0);
    assert_eq!(
        shots,
        vec![
            ShotDraws { spread_x: 150, spread_y: 20, frame: 1, time: 0 },
            ShotDraws { spread_x: 5, spread_y: 199, frame: 0, time: 0 },
        ]
    );
    assert_eq!(draws.used(), 7);
}

#[test]
fn draw_shot_reads_the_frame_of_a_looping_shot_and_the_fuse() {
    let w = Weapon {
        id: 0,
        start_frame: 0,
        shot_type: ST_NORMAL,
        loop_anim: true,
        num_frames: 4,
        time_to_explo: 100,
        time_to_explo_v: 10,
        ..Default::default()
    };
    let mut draws = Draws::new(vec![raw_for(3, 5), raw_for(9, 10)]);
    let d = draw_shot(&w, &mut draws);
    assert_eq!(d, ShotDraws { spread_x: 0, spread_y: 0, frame: 3, time: 9 });
    assert_eq!(draws.used(), 2);
}
