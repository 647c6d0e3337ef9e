use sim::bonus::{check_bonus_spawn_position, do_healing_direct, BonusOutcome};
use sim::fixed::Vec2;
use sim::state::{LevelSim, WeaponInit, WormInit, WormState, MAT_BACKGROUND, MAT_ROCK, NUM_WEAPONS};

fn clear_level(width: i32, height: i32) -> LevelSim {
    let mut material_flags = [0u8; 256];
    material_flags[0] = MAT_BACKGROUND;
    material_flags[1] = MAT_ROCK;
    LevelSim { width, height, material_id: vec![0u8; (width * height) as usize], material_flags }
}

#[test]
fn check_position_rejects_any_dirtrock_in_box_and_draws_no_rand() {
    let mut level = clear_level(20, 20);
    level.material_id[(10 * 20 + 11) as usize] = 1;
    assert!(!check_bonus_spawn_position(&level, 10, 10), "one DirtRock cell in the box -> rejected");
    assert!(check_bonus_spawn_position(&level, 4, 4), "a box with no DirtRock -> accepted");
    assert!(check_bonus_spawn_position(&level, 0, 0), "corner box clamped to bounds, all clear -> accepted");
}

#[test]
fn check_position_box_spans_two_before_and_two_after() {
    let mut level = clear_level(20, 20);
    level.material_id[(8 * 20 + 12) as usize] = 1; // (12, 8): corner of the box around (10, 10)
    assert!(!check_bonus_spawn_position(&level, 10, 10));
    assert!(check_bonus_spawn_position(&level, 10, 13), "(12, 8) is 5 rows above (10, 13)");
    assert!(check_bonus_spawn_position(&level, 40, 40), "a box entirely outside the level is empty");
}

#[test]
fn healing_caps_at_the_settings_health() {
    let init = WormInit {
        index: 0,
        health: 40,
        lives: 3,
        stats_x: 0,
        weapons: [WeaponInit::default(); NUM_WEAPONS],
        start_pos: Vec2::zero(),
        visible: true,
    };
    let mut w = WormState::from_init(&init);
    do_healing_direct(&mut w, 30, 100);
    assert_eq!(w.health, 70);
    do_healing_direct(&mut w, 50, 100);
    assert_eq!(w.health, 100);
    assert_ne!(BonusOutcome::Keep, BonusOutcome::Free);
}
