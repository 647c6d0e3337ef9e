use sim::blit::SpriteSet;
use sim::control::ControlConsts;
use sim::fixed::Vec2;
use sim::game_over::is_game_over;
use sim::physics::PhysicsConsts;
use sim::pool::{BloodPool, Pool};
use sim::state::{LevelSim, SimState, WeaponInit, WormInit, WormState, NUM_WEAPONS};

fn state(game_mode: u32) -> SimState {
    let worm = |index: i32, stats_x: i32| {
        WormState::from_init(&WormInit {
            index,
            health: 100,
            lives: 5,
            stats_x,
            weapons: [WeaponInit::default(); NUM_WEAPONS],
            start_pos: Vec2::zero(),
            visible: true,
        })
    };
    let mut s = SimState::new(
        LevelSim { width: 4, height: 4, material_id: vec![0; 16], material_flags: [0u8; 256] },
        &[],
        0,
        PhysicsConsts::default(),
        ControlConsts::default(),
        Vec::new(),
        [Vec2::zero(); 128],
        false,
        SpriteSet { width: 0, height: 0, count: 0, data: Vec::new() },
        Vec::new(),
        Vec::new(),
        Vec::new(),
        0,
        true,
        100,
    );
    s.worms = vec![worm(0, 0), worm(1, 218)];
    s.bonuses = Pool::new(4);
    s.wobjects = Pool::new(4);
    s.sobjects = Pool::new(4);
    s.nobjects = Pool::new(4);
    s.bobjects = BloodPool::new(4);
    s.game_mode = game_mode;
    s.time_to_lose = 100;
    s
}

#[test]
fn kill_em_all_and_scales_end_when_any_worm_has_no_lives() {
    for mode in [0, 3] {
        let mut s = state(mode);
        assert!(!is_game_over(&s));
        s.worms[1].timer = 10_000;
        assert!(!is_game_over(&s));
        s.worms[1].lives = 0;
        assert!(is_game_over(&s), "mode {mode}: lives <= 0");
        s.worms[1].lives = -2;
        assert!(is_game_over(&s));
    }
}

#[test]
fn game_of_tag_and_holdazone_end_on_time_to_lose() {
    for mode in [1, 2] {
        let mut s = state(mode);
        s.time_to_lose = 12;
        s.worms[0].lives = 0;
        s.worms[1].timer = 11;
        assert!(!is_game_over(&s));
        s.worms[1].timer = 12;
        assert!(is_game_over(&s), "mode {mode}: timer >= time_to_lose");
    }
}

#[test]
fn an_unknown_mode_never_ends() {
    let mut s = state(7);
    s.worms[0].lives = 0;
    s.worms[0].timer = 10_000;
    assert!(!is_game_over(&s));
}
