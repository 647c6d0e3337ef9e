use sim::object_types::{NObjectType, SObjectType, Weapon};
use sim::blit::{SpriteSet, Texture};
use sim::fixed::Vec2;
use sim::control::ControlConsts;
use sim::physics::PhysicsConsts;
use sim::state::{
    check_respawn_position, limit_xy, ControlState, SimState, LevelSim, NObject, SObject, WObject, WeaponInit,
    WormInit, WormState, WormWeapon, MAT_BACKGROUND, MAT_DIRT, MAT_DIRT2, MAT_ROCK, NUM_WEAPONS,
};

#[test]
fn control_state_pack_unpack_masks_to_7_bits() {
    assert_eq!(ControlState::unpack(0xffff_ffff).pack(), 0x7f);
    assert_eq!(ControlState::unpack(0).pack(), 0);
    let mut cs = ControlState::new();
    cs.set(ControlState::FIRE, true);
    assert!(cs.get(ControlState::FIRE));
    assert_eq!(cs.pack(), 1 << 4);
    cs.set(ControlState::FIRE, false);
    assert_eq!(cs.pack(), 0);
}

#[test]
fn control_state_press_sets_and_release_clears() {
    let mut cs = ControlState::new();
    cs.press(ControlState::JUMP);
    assert!(cs.get(ControlState::JUMP));
    assert_eq!(cs.pack(), 1 << 6);
    cs.press(ControlState::JUMP);
    assert_eq!(cs.pack(), 1 << 6);
    cs.release(ControlState::JUMP);
    assert!(!cs.get(ControlState::JUMP));
    assert_eq!(cs.pack(), 0);
    cs.release(ControlState::JUMP);
    assert_eq!(cs.pack(), 0);
}

#[test]
fn control_state_pressed_once_returns_prior_bit_and_clears_it() {
    let mut cs = ControlState::new();
    cs.press(ControlState::LEFT);
    cs.press(ControlState::RIGHT);
    assert!(cs.pressed_once(ControlState::LEFT), "set bit -> true");
    assert!(!cs.get(ControlState::LEFT), "pressed_once cleared LEFT");
    assert_eq!(cs.pack(), 1 << 3, "only RIGHT remains set");
    assert!(!cs.pressed_once(ControlState::LEFT), "clear bit -> false");
    assert_eq!(cs.pack(), 1 << 3, "RIGHT still set, LEFT stays clear");
    assert!(cs.pressed_once(ControlState::RIGHT), "RIGHT still set -> true");
    assert_eq!(cs.pack(), 0, "both bits now cleared");
}

fn probe_level() -> LevelSim {
    let mut material_flags = [0u8; 256];
    material_flags[0] = 0x00;
    material_flags[1] = MAT_BACKGROUND;
    material_flags[2] = 1 << 2;
    material_flags[7] = MAT_BACKGROUND;
    let mut material_id = vec![0u8; 16];
    material_id[0] = 1;
    material_id[3] = 7;
    material_id[5] = 1;
    material_id[10] = 2;
    LevelSim { width: 4, height: 4, material_id, material_flags }
}

#[test]
fn checked_mat_background_in_bounds_reads_pixel_material() {
    let lvl = probe_level();
    assert!(lvl.checked_mat_background(1, 1), "background pixel -> true");
    assert!(!lvl.checked_mat_background(2, 2), "rock pixel -> false");
}

#[test]
fn checked_mat_background_oob_uses_flag_table_index_0_not_material_id_0() {
    let lvl = probe_level();
    assert!(
        !lvl.checked_mat_background(100, 100),
        "OOB must read flag-table entry 0 (not material_id[0]'s flags)"
    );
    assert!(!lvl.checked_mat_background(0, 1000), "large y is OOB -> entry 0");
}

#[test]
fn checked_mat_background_negative_x_wraps_to_wrong_row() {
    let lvl = probe_level();
    assert!(lvl.checked_mat_background(-1, 1), "negative x wraps to in-range idx 3 and reads that pixel");
    let mut lvl2 = probe_level();
    lvl2.material_id[3] = 2;
    assert!(!lvl2.checked_mat_background(-1, 1), "probe reads idx 3 specifically (wrapped wrong-row cell)");
}

#[test]
fn checked_mat_background_far_negative_index_wraps_past_the_buffer() {
    // -5 + 0 * 4 = -5 reinterprets to 2^32 - 5, past the buffer: entry 0.
    let mut lvl = probe_level();
    lvl.material_flags[0] = MAT_BACKGROUND;
    assert!(lvl.checked_mat_background(-5, 0));
    lvl.material_flags[0] = 0;
    assert!(!lvl.checked_mat_background(-5, 0));
}

#[test]
fn worm_weapon_available_is_loading_left_zero() {
    let mut ww = WormWeapon::default();
    assert!(ww.available(), "loading_left 0 -> available");
    ww.loading_left = 1;
    assert!(!ww.available(), "loading_left > 0 -> not available");
    ww.loading_left = -3;
    assert!(!ww.available(), "loading_left != 0 -> not available");
    ww.loading_left = 0;
    ww.ammo = 0;
    ww.delay_left = 99;
    assert!(ww.available(), "available() ignores ammo and delay_left");
}

#[test]
fn inside_is_a_true_range_check_distinct_from_the_wrap() {
    let lvl = probe_level();
    assert!(lvl.inside(0, 0));
    assert!(lvl.inside(3, 3));
    assert!(!lvl.inside(4, 0), "x == width is outside");
    assert!(!lvl.inside(0, 4), "y == height is outside");
    assert!(!lvl.inside(-1, 0), "negative x is outside");
    assert!(!lvl.inside(0, -1), "negative y is outside");
    assert!(lvl.checked_mat_background(-1, 1), "wrapping probe reads idx 3 (in range)");
    assert!(!lvl.inside(-1, 1), "inside() is a real range check, NOT the wrap");
}

fn dirt_rock_level() -> LevelSim {
    let mut material_flags = [0u8; 256];
    material_flags[1] = MAT_DIRT;
    material_flags[2] = MAT_ROCK;
    material_flags[3] = MAT_DIRT2;
    material_flags[4] = MAT_BACKGROUND;
    let mut material_id = vec![0u8; 16];
    material_id[0] = 1;
    material_id[3] = 1;
    material_id[5] = 2;
    material_id[6] = 3;
    material_id[10] = 4;
    LevelSim { width: 4, height: 4, material_id, material_flags }
}

#[test]
fn dirt_rock_tests_the_dirt_dirt2_rock_bits() {
    let lvl = dirt_rock_level();
    assert!(lvl.dirt_rock(0, 0), "dirt cell -> DirtRock");
    assert!(lvl.dirt_rock(1, 1), "rock cell -> DirtRock");
    assert!(lvl.dirt_rock(2, 1), "dirt2 cell -> DirtRock");
    assert!(!lvl.dirt_rock(2, 2), "background-only cell -> NOT DirtRock (bit 3 excluded)");
    assert!(!lvl.dirt_rock(3, 3), "no-flag material -> NOT DirtRock");
    assert!(!lvl.dirt_rock(100, 100), "far OOB -> false");
    assert!(!lvl.dirt_rock(-1, 1), "negative x is OOB for dirt_rock: inside() check wins over the wrap (idx 3 is dirt)");
}

fn flag_read_level() -> LevelSim {
    let mut material_flags = [0u8; 256];
    material_flags[1] = MAT_BACKGROUND;
    material_flags[2] = MAT_DIRT;
    material_flags[3] = MAT_DIRT2;
    material_flags[4] = MAT_ROCK;
    let mut material_id = vec![0u8; 16];
    material_id[0] = 1;
    material_id[1] = 2;
    material_id[2] = 3;
    material_id[3] = 4;
    LevelSim { width: 4, height: 4, material_id, material_flags }
}

#[test]
fn flag_reads_discriminate_background_dirt_dirt2_rock() {
    let lvl = flag_read_level();
    assert!(lvl.background(0, 0), "background cell -> background");
    assert!(!lvl.any_dirt(0, 0));
    assert!(!lvl.dirt(0, 0));
    assert!(!lvl.dirt2(0, 0));
    assert!(!lvl.background(1, 0));
    assert!(lvl.any_dirt(1, 0), "dirt cell -> any_dirt");
    assert!(lvl.dirt(1, 0), "dirt cell -> dirt");
    assert!(!lvl.dirt2(1, 0));
    assert!(!lvl.background(2, 0));
    assert!(lvl.any_dirt(2, 0), "dirt2 cell -> any_dirt");
    assert!(!lvl.dirt(2, 0));
    assert!(lvl.dirt2(2, 0), "dirt2 cell -> dirt2");
    assert!(!lvl.background(3, 0));
    assert!(!lvl.any_dirt(3, 0), "rock is not dirt");
    assert!(!lvl.dirt(3, 0));
    assert!(!lvl.dirt2(3, 0));
    assert!(lvl.rock(3, 0));
    assert!(!lvl.rock(1, 0));
}

#[test]
fn set_material_updates_the_map_and_only_that_cell() {
    let mut lvl = flag_read_level();
    assert!(!lvl.background(1, 1));
    assert!(!lvl.dirt(1, 1));
    lvl.set_material(5, 1);
    assert!(lvl.background(1, 1), "set_material 1 -> background reads true");
    assert!(!lvl.dirt(1, 1));
    lvl.set_material(5, 2);
    assert!(lvl.dirt(1, 1), "set_material 2 -> dirt reads true");
    assert!(!lvl.background(1, 1));
    assert!(lvl.background(0, 0), "neighbouring cell untouched");
}

#[test]
fn pixel_reads_the_raw_material_value() {
    let lvl = flag_read_level();
    assert_eq!(lvl.pixel(2, 0), 3);
    assert_eq!(lvl.pixel(3, 3), 0);
}

#[test]
fn sobject_carries_position_and_anim_fields_and_is_copy() {
    let s = SObject::default();
    assert_eq!(s.id, 0);
    assert_eq!(s.x, 0);
    assert_eq!(s.y, 0);
    assert_eq!(s.cur_frame, 0);
    assert_eq!(s.anim_delay, 0);
    let s2 = SObject { id: 2, x: -3, y: 4, cur_frame: 5, anim_delay: 6 };
    let s3 = s2;
    assert_eq!(s2, s3);
}

#[test]
fn wobject_owner_idx_defaults_zero() {
    assert_eq!(WObject::default().owner_idx, 0);
}

#[test]
fn nobject_owner_idx_and_time_left_default_zero() {
    let n = NObject::default();
    assert_eq!(n.owner_idx, 0);
    assert_eq!(n.time_left, 0);
}

fn init_with(start_pos: Vec2, visible: bool) -> WormInit {
    WormInit {
        index: 0,
        health: 100,
        lives: 10,
        stats_x: 0,
        weapons: [WeaponInit::default(); NUM_WEAPONS],
        start_pos,
        visible,
    }
}

#[test]
fn from_init_honours_start_pos_and_visible() {
    let w = WormState::from_init(&init_with(Vec2::new(6553600, 3276800), true));
    assert_eq!(w.pos, Vec2::new(6553600, 3276800), "pos = init.start_pos");
    assert!(w.visible, "visible = init.visible");
    assert_eq!(w.vel, Vec2::zero(), "vel still starts at zero");
}

#[test]
fn from_init_defaults_match_slice1() {
    let w = WormState::from_init(&init_with(Vec2::zero(), false));
    assert_eq!(w.pos, Vec2::zero());
    assert!(!w.visible);
}

#[test]
fn from_init_sets_control_defaults() {
    let w = WormState::from_init(&init_with(Vec2::zero(), false));
    assert_eq!(w.aiming_speed, 0);
    assert_eq!(w.direction, 0);
    assert!(w.movable);
    assert!(!w.able_to_jump);
    assert!(!w.able_to_dig);
    assert!(!w.key_change_pressed);
    assert_eq!(w.current_weapon, 0);
    assert_eq!(w.fire_cone, 0);
    assert_eq!(w.leave_shell_timer, 0);
}

#[test]
fn from_init_loads_every_weapon_slot_and_arms_the_killed_timer() {
    let mut init = init_with(Vec2::zero(), false);
    for j in 0..NUM_WEAPONS {
        init.weapons[j] = WeaponInit { ty: Some(j as i32 + 5), ammo: 10 * j as i32 };
    }
    let w = WormState::from_init(&init);
    for j in 0..NUM_WEAPONS {
        assert_eq!(w.weapons[j].ty, Some(j as i32 + 5));
        assert_eq!(w.weapons[j].ammo, 10 * j as i32);
        assert_eq!(w.weapons[j].delay_left, 0);
        assert_eq!(w.weapons[j].loading_left, 0);
    }
    assert_eq!(w.killed_timer, 150);
    assert_eq!(w.last_killed_by_idx, -1);
    assert!(w.ready);
    assert_eq!(w.control_states.pack(), 0);
    assert_eq!(w.health, 100);
    assert_eq!(w.lives, 10);
}

#[test]
fn do_damage_direct_records_the_killer_only_when_health_drops_to_zero() {
    let mut w = WormState::from_init(&init_with(Vec2::zero(), true));
    w.do_damage_direct(30, 1);
    assert_eq!(w.health, 70);
    assert_eq!(w.last_killed_by_idx, -1);
    w.do_damage_direct(0, 1);
    w.do_damage_direct(-5, 1);
    assert_eq!(w.health, 70, "non-positive damage is ignored");
    w.do_damage(70, 1);
    assert_eq!(w.health, 0);
    assert_eq!(w.last_killed_by_idx, 1);
}

fn flat_level(width: i32, height: i32) -> LevelSim {
    LevelSim { width, height, material_id: vec![0u8; (width * height) as usize], material_flags: [0u8; 256] }
}

#[test]
fn t4_check_respawn_position_reject_clauses_and_raw_old_x_bug() {
    let level = flat_level(1400, 700);
    assert!(
        !check_respawn_position(&level, 9999, 9999, 10, 500, 1000, 505, 30, 30),
        "kDeltaX = old_x (10) <= 30 && |old_y - y| = 5 <= 30 => reject despite x far apart"
    );
    assert!(
        check_respawn_position(&level, 9999, 9999, 1000, 500, 1005, 505, 30, 30),
        "old_x = 1000 > 30 => last clause false; enemy far; no rock => accept"
    );
    assert!(
        !check_respawn_position(&level, 200, 200, 9999, 9999, 210, 205, 30, 30),
        "|x2-x|=10, |y2-y|=5 <= 30 => enemy reject"
    );
    let mut rlevel = flat_level(1400, 700);
    rlevel.material_flags[9] = MAT_ROCK;
    rlevel.material_id[(200 + 200 * 1400) as usize] = 9;
    assert!(
        !check_respawn_position(&rlevel, 9999, 9999, 9999, 9999, 200, 200, 30, 30),
        "rock in the box => reject"
    );
    assert!(
        check_respawn_position(&level, 9999, 9999, 9999, 9999, 200, 200, 30, 30),
        "clear of last, enemy, and rock => accept"
    );
}

#[test]
fn check_respawn_position_box_is_half_open_and_clamped() {
    let mut l = flat_level(20, 20);
    l.material_flags[9] = MAT_ROCK;
    // Rock at (13, 10): x + 3 for x = 10 is the excluded far edge.
    l.material_id[(13 + 10 * 20) as usize] = 9;
    assert!(check_respawn_position(&l, 9999, 9999, 9999, 9999, 10, 10, 5, 5));
    // Rock at (7, 6): x - 3, y - 4 is the included near corner.
    l.material_id[(7 + 6 * 20) as usize] = 9;
    assert!(!check_respawn_position(&l, 9999, 9999, 9999, 9999, 10, 10, 5, 5));
    // Near the right edge the far edge is pulled in to width - 1: (19, y) is never scanned.
    let mut e = flat_level(20, 20);
    e.material_flags[9] = MAT_ROCK;
    e.material_id[(19 + 10 * 20) as usize] = 9;
    assert!(check_respawn_position(&e, 9999, 9999, 9999, 9999, 18, 10, 5, 5));
}

#[test]
fn limit_xy_clamps_both_axes() {
    let (mut x, mut y) = (-5, 50);
    limit_xy(&mut x, &mut y, 10, 20);
    assert_eq!((x, y), (0, 20));
    let (mut x, mut y) = (15, -1);
    limit_xy(&mut x, &mut y, 10, 20);
    assert_eq!((x, y), (10, 0));
    let (mut x, mut y) = (4, 7);
    limit_xy(&mut x, &mut y, 10, 20);
    assert_eq!((x, y), (4, 7));
}

#[test]
fn resolve_weapons_mirrors_init_weapons() {
    let weapons: Vec<Weapon> = (0..5).map(|i| Weapon { id: i, ammo: i * 10, ..Default::default() }).collect();
    let weap_order = [4usize, 3, 2, 1, 0];
    let settings_weapons = [1u32, 2, 3, 4, 5];
    let resolved = WormInit::resolve_weapons(&weapons, &weap_order, &settings_weapons);
    assert_eq!(resolved[0].ty, Some(4));
    assert_eq!(resolved[0].ammo, 40);
    assert_eq!(resolved[4].ty, Some(0));
    assert_eq!(resolved[4].ammo, 0);
}

/// Two worms with distinct weapon loadouts: worm 0 at stats_x 0, worm 1 at
/// stats_x 218.
fn two_loaded_worms() -> Vec<WormInit> {
    let load = |types: [i32; 5], ammo: [i32; 5]| {
        let mut w = [WeaponInit::default(); NUM_WEAPONS];
        for k in 0..5 {
            w[k] = WeaponInit { ty: Some(types[k]), ammo: ammo[k] };
        }
        w
    };
    vec![
        WormInit {
            index: 0,
            health: 100,
            lives: 5,
            stats_x: 0,
            weapons: load([0, 1, 2, 3, 4], [10, 1, 50, 3, 25]),
            start_pos: Vec2::zero(),
            visible: false,
        },
        WormInit {
            index: 1,
            health: 100,
            lives: 5,
            stats_x: 218,
            weapons: load([5, 6, 7, 8, 9], [2, 8, 100, 4, 1]),
            start_pos: Vec2::zero(),
            visible: false,
        },
    ]
}

/// The 4x4 level of the tick-0 tests, with material `3 * i + 1` at cell `i`.
fn synthetic_level() -> LevelSim {
    let material_id: Vec<u8> = (0..16).map(|i| (i * 3 + 1) as u8).collect();
    LevelSim { width: 4, height: 4, material_id, material_flags: [0u8; 256] }
}

/// A tick-0 state on `level` with empty tables, a loading time of 100, weapon
/// changes while loading allowed, and blood 100.
fn new_state(level: LevelSim) -> SimState {
    SimState::new(
        level,
        &two_loaded_worms(),
        0,
        PhysicsConsts::default(),
        ControlConsts::default(),
        Vec::new(),
        [Vec2::zero(); 128],
        false,
        SpriteSet { width: 0, height: 0, count: 0, data: Vec::new() },
        Vec::new(),
        Vec::new(),
        Vec::new(),
        100,
        true,
        100,
    )
}

fn tick0_state() -> SimState {
    new_state(synthetic_level())
}

#[test]
fn builds_tick0_global_state() {
    let level = synthetic_level();
    let state = tick0_state();
    assert_eq!(state.cycles, 0, "cycles must be 0 at tick 0");
    assert_eq!(state.rng_last, 0, "no RNG consumed -> last() == 0");
    assert_eq!(state.level.width, 4);
    assert_eq!(state.level.height, 4);
    assert_eq!(state.level.material_id, level.material_id, "material map copied verbatim");
    assert_eq!(state.worms.len(), 2);
}

#[test]
fn sim_state_new_fills_material_flags_from_table() {
    let mut level = synthetic_level();
    for (i, f) in level.material_flags.iter_mut().enumerate() {
        *f = (i % 7) as u8;
    }
    let flags = level.material_flags;
    let state = new_state(level);
    assert_eq!(state.level.material_flags, flags, "flag table copied verbatim");
    assert_eq!(state.level.width, 4);
    assert_eq!(state.level.height, 4);
}

#[test]
fn pools_start_empty() {
    let state = tick0_state();
    assert!(state.bonuses.is_empty());
    assert!(state.wobjects.is_empty());
    assert!(state.sobjects.is_empty());
    assert!(state.nobjects.is_empty());
    assert!(state.bobjects.is_empty());
    assert_eq!(state.bonuses.iter().len(), 0);
    assert_eq!(state.bobjects.iter().len(), 0);
    assert_eq!(state.bonuses.capacity(), 99);
    assert_eq!(state.wobjects.capacity(), 600);
    assert_eq!(state.sobjects.capacity(), 700);
    assert_eq!(state.nobjects.capacity(), 600);
    assert_eq!(state.bobjects.capacity(), 700);
}

#[test]
fn worm_tick0_scalar_values() {
    let worms = tick0_state().worms;
    for w in &worms {
        assert_eq!(w.pos, Vec2::zero());
        assert_eq!(w.vel, Vec2::zero());
        assert_eq!(w.aiming_angle, 0);
        assert_eq!(w.kills, 0);
        assert_eq!(w.timer, 0);
        assert!(!w.visible, "worm starts invisible");
        assert_eq!(w.killed_timer, 150, "kKilledTimerInitial");
        assert_eq!(w.control_states.pack(), 0, "no input applied yet");
        assert!(!w.ninjarope.out, "rope stowed");
        assert_eq!(w.ninjarope.pos, Vec2::zero());
        assert_eq!(w.health, 100);
        assert_eq!(w.lives, 5);
    }
    assert_eq!(worms[0].index, 0);
    assert_eq!(worms[0].stats_x, 0);
    assert_eq!(worms[1].index, 1);
    assert_eq!(worms[1].stats_x, 218);
}

#[test]
fn worm_weapons_initialised() {
    let worms = tick0_state().worms;
    let w0 = &worms[0];
    for (j, ww) in w0.weapons.iter().enumerate() {
        assert_eq!(ww.ty, Some(j as i32), "slot {j} type set");
        assert_eq!(ww.delay_left, 0);
        assert_eq!(ww.loading_left, 0);
    }
    assert_eq!(w0.weapons[0].ammo, 10);
    assert_eq!(w0.weapons[2].ammo, 50);
    assert_eq!(worms[1].weapons[2].ty, Some(7));
    assert_eq!(worms[1].weapons[2].ammo, 100);
}

#[test]
fn settings_loading_time_and_load_change_defaults() {
    let state = tick0_state();
    assert_eq!(state.settings_loading_time, 100, "loading time as given (100)");
    assert!(state.load_change, "weapon changes while loading as given (true)");
}

#[test]
fn new_state_carries_the_setting_defaults_and_no_death_yet() {
    let state = tick0_state();
    assert_eq!(state.settings_health, 100, "worm health defaults to 100");
    assert_eq!(state.last_killed_idx, -1, "no worm killed yet");
    assert!(!state.got_changed);
    assert_eq!(state.blood, 100);
    assert_eq!(state.settings_max_bonuses, 0, "bonus drops off by default");
    assert_eq!(state.bonus_drop_chance, 0);
    assert_eq!(state.num_blood_colours, 0);
    assert_eq!(state.bobj_gravity, 0);
    assert_eq!(state.bonus_rand_timer, [[0, 0], [0, 0]]);
    assert_eq!(state.bonus_s_objects, [0, 0]);
    assert!(state.weap_table.is_empty());
    assert_eq!(state.small_sprites.count, 0);
    assert!(state.small_sprites.data.is_empty());
    assert_eq!(state.worm_spawn_rect_w, 0);
    assert_eq!(state.worm_min_spawn_dist_enemy, 0);
    assert!(!state.h_bonus_disable && !state.h_signed_recoil);
    assert_eq!(state.game_mode, 0);
    assert_eq!(state.time_to_lose, 0);
}

/// A tick-0 state on the synthetic level carrying the given tables.
fn state_with_tables(
    weapons: Vec<Weapon>,
    cossin: [Vec2; 128],
    large_sprites: SpriteSet,
    textures: Vec<Texture>,
    sobject_types: Vec<SObjectType>,
    nobject_types: Vec<NObjectType>,
) -> SimState {
    SimState::new(
        synthetic_level(),
        &two_loaded_worms(),
        0,
        PhysicsConsts::default(),
        ControlConsts::default(),
        weapons,
        cossin,
        false,
        large_sprites,
        textures,
        sobject_types,
        nobject_types,
        100,
        true,
        100,
    )
}

fn no_sprites() -> SpriteSet {
    SpriteSet { width: 0, height: 0, count: 0, data: Vec::new() }
}

#[test]
fn sim_state_carries_large_sprites_and_textures() {
    let blank = Texture { mframe: 0, rframe: 0, sframe: 0, ndrawback: false };
    let mut textures = vec![blank; 7];
    textures[6] = Texture { mframe: 38, rframe: 2, sframe: 82, ndrawback: false };
    let large_sprites = SpriteSet { width: 16, height: 16, count: 110, data: vec![0u8; 110 * 16 * 16] };
    let state = state_with_tables(Vec::new(), [Vec2::zero(); 128], large_sprites, textures, Vec::new(), Vec::new());
    let t = &state.textures[6];
    assert_eq!(t.mframe, 38, "greenball mframe");
    assert_eq!(t.rframe, 2, "greenball rframe");
    assert_eq!(t.sframe, 82, "greenball sframe");
    assert!(!t.ndrawback, "greenball ndrawback");
    assert_eq!(state.large_sprites.sprite(38).len(), 256, "a 16x16 large sprite is 256 bytes");
}

#[test]
fn sim_state_carries_cossin_and_weapons() {
    let weapons = vec![Weapon { id: 0, ammo: 5, ..Default::default() }, Weapon { id: 1, ammo: 9, ..Default::default() }];
    let mut cossin = [Vec2::zero(); 128];
    for (i, c) in cossin.iter_mut().enumerate() {
        *c = Vec2::new(i as i32 * 3, -(i as i32));
    }
    let state = state_with_tables(weapons.clone(), cossin, no_sprites(), Vec::new(), Vec::new(), Vec::new());
    assert_eq!(state.cossin, cossin, "cossin table carried verbatim");
    assert_eq!(state.weapons, weapons, "weapons carried verbatim");
    assert_eq!(state.cossin[0].x, 0);
}

#[test]
fn sim_state_carries_object_type_tables() {
    let mut sobject_types = vec![SObjectType::default(); 3];
    sobject_types[2] = SObjectType {
        num_sounds: 2,
        anim_delay: 2,
        num_frames: 5,
        detect_range: 8,
        damage: 5,
        blow_away: 3000,
        dirt_effect: 2,
        id: 2,
        ..Default::default()
    };
    let mut nobject_types = vec![NObjectType::default(); 3];
    nobject_types[2] = NObjectType {
        speed: 80,
        speed_v: 40,
        distribution: 10000,
        gravity: 700,
        expl_ground: true,
        id: 2,
        ..Default::default()
    };
    let state = state_with_tables(
        Vec::new(),
        [Vec2::zero(); 128],
        no_sprites(),
        Vec::new(),
        sobject_types.clone(),
        nobject_types.clone(),
    );
    assert_eq!(state.sobject_types, sobject_types, "sobject table carried verbatim");
    assert_eq!(state.nobject_types, nobject_types, "nobject table carried verbatim");
    assert_eq!(state.sobject_types[2].damage, 5);
    assert!(state.nobject_types[2].expl_ground);
}
