use sim::blit::SpriteSet;
use sim::control::ControlConsts;
use sim::draws::Draws;
use sim::fixed::{itof, Vec2};
use sim::physics::PhysicsConsts;
use sim::state::{BObject, LevelSim, SimState, MAT_BACKGROUND};
use sim::tick::finish_object_phase;

/// An idle tick-0 state on a 100x100 background level, no worms, empty pools.
fn idle_state() -> SimState {
    let mut material_flags = [0u8; 256];
    material_flags[0] = MAT_BACKGROUND;
    SimState::new(
        LevelSim { width: 100, height: 100, material_id: vec![0; 100 * 100], material_flags },
        &[],
        0,
        PhysicsConsts::default(),
        ControlConsts::default(),
        Vec::new(),
        [Vec2::zero(); 128],
        false,
        SpriteSet { width: 0, height: 0, count: 0, data: Vec::new() },
        Vec::new(),
        Vec::new(),
        Vec::new(),
        100,
        true,
        100,
    )
}

#[test]
fn drop_roll_off_by_default_draws_nothing_and_cycles_advance() {
    let mut s = idle_state();
    s.bonus_drop_chance = 11;
    let mut d = Draws::new(vec![0, 0, 0]);
    let drop = finish_object_phase(&mut s, &mut d);
    assert!(!drop, "max_bonuses == 0: no drop");
    assert_eq!(d.used(), 0, "and no draw");
    assert_eq!(s.cycles, 1, "cycles advance once");
}

#[test]
fn drop_roll_with_bonuses_on_draws_once_after_the_blood() {
    let mut s = idle_state();
    s.settings_max_bonuses = 4;
    s.bonus_drop_chance = 11;
    s.bobj_gravity = 700;
    s.bobjects.spawn(BObject { pos: Vec2::new(itof(40), itof(40)), vel: Vec2::new(itof(1), itof(2)), color: 0 });
    // A raw draw of 0 gives bound 0: the roll succeeds.
    let mut d = Draws::new(vec![0]);
    assert!(finish_object_phase(&mut s, &mut d), "rand(11) == 0 drops a bonus");
    assert_eq!(d.used(), 1, "exactly one draw, the roll");
    assert_eq!(s.bobjects.iter()[0].pos, Vec2::new(itof(41), itof(42)), "the particle moved first");
    assert_eq!(s.bobjects.iter()[0].vel.y, itof(2) + 700);
    // A raw draw of u32::MAX gives bound 10: no drop.
    let mut d = Draws::new(vec![u32::MAX]);
    assert!(!finish_object_phase(&mut s, &mut d));
    assert_eq!(s.cycles, 2);
}

#[test]
fn drop_roll_disabled_by_the_hack() {
    let mut s = idle_state();
    s.settings_max_bonuses = 4;
    s.bonus_drop_chance = 1;
    s.h_bonus_disable = true;
    let mut d = Draws::new(vec![0]);
    assert!(!finish_object_phase(&mut s, &mut d));
    assert_eq!(d.used(), 0);
}

#[test]
fn cycles_wrap_at_the_top() {
    let mut s = idle_state();
    s.cycles = i32::MAX;
    let mut d = Draws::new(Vec::new());
    finish_object_phase(&mut s, &mut d);
    assert_eq!(s.cycles, i32::MIN);
}
