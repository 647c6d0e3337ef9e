use sim::blit::{SpriteSet, Texture};
use sim::draws::Draws;
use sim::fixed::{ftoi, itof, Vec2};
use sim::nobject::SpawnDraws;
use sim::object_types::NObjectType;
use sim::pool::Pool;
use sim::state::{
    ControlState, LevelSim, NObject, WeaponInit, WormInit, WormState, MAT_BACKGROUND, MAT_ROCK, NUM_WEAPONS,
};
use sim::worm::{
    start_respawn, complete_respawn, dead_worm_step, dead_worm_tick, do_respawning, drips, fire_gate, movable_reset, begin_respawn,
    respawn_tick, respawn_trial, worm_death, worm_death_on_tape, worm_pre_death_drip, worm_tick_start,
};

fn two_worms() -> Vec<WormInit> {
    (0..2)
        .map(|i| WormInit {
            index: i,
            health: 100,
            lives: 5,
            stats_x: 0,
            weapons: [WeaponInit::default(); NUM_WEAPONS],
            start_pos: Vec2::new(itof(100 + 50 * i), itof(100)),
            visible: false,
        })
        .collect()
}

fn cossin() -> [Vec2; 128] {
    let mut t = [Vec2::zero(); 128];
    for (i, c) in t.iter_mut().enumerate() {
        *c = Vec2::new((i as i32 - 64) * 1000, (32 - i as i32) * 500);
    }
    t
}

#[test]
fn t1_health_clamp_runs_every_tick_outside_the_lives_gate() {
    let mut w0 = WormState::from_init(&two_worms()[0]);
    w0.lives = 0;
    w0.health = 150;
    assert!(!worm_tick_start(&mut w0, 100), "gate closed (lives==0) => the body is skipped");
    assert_eq!(w0.health, 100, "clamp caps to settings_health even with the lives gate closed");
    assert_eq!(w0.killed_timer, 150, "killed_timer frozen");
    let mut w1 = WormState::from_init(&two_worms()[1]);
    assert!(worm_tick_start(&mut w1, 100));
    assert_eq!(w1.health, 100, "clamp is the identity for a full-health worm");
}

#[test]
fn t1_lives_gate_skips_the_whole_worm_body() {
    let mut workers = [WormState::from_init(&two_worms()[0]), WormState::from_init(&two_worms()[1])];
    workers[1].lives = 0;
    for w in workers.iter_mut() {
        if worm_tick_start(w, 100) && !w.visible {
            dead_worm_tick(w);
        }
    }
    assert_eq!(workers[0].killed_timer, 149, "lives>0: the dead arm ran (killed_timer counted down)");
    assert_eq!(workers[1].killed_timer, 150, "lives==0: the entire worm body was skipped (killed_timer frozen)");
}

#[test]
fn t1_dead_arm_pressed_once_fire_and_steerable_reset() {
    let mut w = WormState::from_init(&two_worms()[0]);
    w.ready = false;
    w.steerable_count = 7;
    w.control_states.set(ControlState::FIRE, true);
    let begin = dead_worm_tick(&mut w);
    assert!(!begin, "countdown not at zero yet");
    assert!(w.ready, "PressedOnce(kFire) set ready");
    assert!(!w.control_states.get(ControlState::FIRE), "PressedOnce(kFire) cleared the Fire bit");
    assert_eq!(w.steerable_count, 0, "steerable_count zeroed each dead tick");
    assert_eq!(w.killed_timer, 149, "killed_timer counted down in the dead arm");
}

#[test]
fn dead_arm_reports_the_countdown_reaching_zero() {
    let mut w = WormState::from_init(&two_worms()[0]);
    w.killed_timer = 1;
    assert!(dead_worm_tick(&mut w), "1 -> 0 starts the respawn search");
    w.killed_timer = -1;
    assert!(!dead_worm_tick(&mut w), "a negative countdown stays put");
    assert_eq!(w.killed_timer, -1);
}

#[test]
fn fire_gate_needs_fire_no_change_loaded_and_no_delay() {
    let mut w = WormState::from_init(&two_worms()[0]);
    assert!(!fire_gate(&w), "fire not held");
    w.control_states.set(ControlState::FIRE, true);
    assert!(fire_gate(&w));
    w.weapons[0].delay_left = 1;
    assert!(!fire_gate(&w), "delay still running");
    w.weapons[0].delay_left = 0;
    w.weapons[0].loading_left = 3;
    assert!(!fire_gate(&w), "still loading");
    w.weapons[0].loading_left = 0;
    w.control_states.set(ControlState::CHANGE, true);
    assert!(!fire_gate(&w), "change held");
}

#[test]
fn movable_resets_once_left_and_right_are_released() {
    let mut w = WormState::from_init(&two_worms()[0]);
    w.movable = false;
    w.control_states.set(ControlState::LEFT, true);
    movable_reset(&mut w);
    assert!(!w.movable);
    w.control_states.set(ControlState::LEFT, false);
    movable_reset(&mut w);
    assert!(w.movable);
}

#[test]
fn drip_gate_is_below_a_quarter_of_full_health() {
    let mut w = WormState::from_init(&two_worms()[1]);
    w.health = 25;
    assert!(!drips(&w, 100), "at a quarter: no drip");
    w.health = 24;
    assert!(drips(&w, 100));
    w.health = -5;
    assert!(drips(&w, 100));
}

fn death_types() -> Vec<NObjectType> {
    let mut v = vec![NObjectType::default(); 7];
    v[6] = NObjectType { id: 6, speed_v: 40, distribution: 10000, ..Default::default() };
    v[0] = NObjectType { id: 0, speed_v: 20, distribution: 0, ..Default::default() };
    v[1] = NObjectType { id: 1, speed_v: 20, distribution: 5000, ..Default::default() };
    v
}

fn dying_worm(index: usize, health: i32, killed_by: i32) -> WormState {
    let mut w = WormState::from_init(&two_worms()[index]);
    w.health = health;
    w.visible = true;
    w.last_killed_by_idx = killed_by;
    w.vel = Vec2::new(300, -600);
    w.fire_cone = 9;
    w.leave_shell_timer = 9;
    w.make_sight_green = true;
    w.ninjarope.out = true;
    w.control_states.set(ControlState::FIRE, true);
    w
}

struct Death {
    killer: Option<usize>,
    pool: Pool<NObject>,
    lki: i32,
    gc: bool,
    used: usize,
}

/// Distinct raw outputs, so a reordered or miscounted draw shows.
fn death_tape() -> Vec<u32> {
    let mut x: u32 = 99;
    (0..1000)
        .map(|_| {
            x = x.wrapping_mul(1664525).wrapping_add(1013904223);
            x
        })
        .collect()
}

/// The death of worm `index` reading its draws from [`death_tape`].
fn die(w: &mut WormState, index: i32, blood: i32) -> Death {
    let types = death_types();
    let table = cossin();
    let mut pool: Pool<NObject> = Pool::new(600);
    let (mut lki, mut gc) = (-1i32, false);
    let mut draws = Draws::new(death_tape());
    let killer = worm_death_on_tape(w, index, blood, &types, &table, &mut draws, &mut pool, &mut lki, &mut gc);
    assert!(!draws.is_short());
    Death { killer, pool, lki, gc, used: draws.used() }
}

#[test]
fn t3_death_gate_health_positive_draws_nothing_and_no_mutation() {
    let mut w = dying_worm(1, 1, 0);
    let before = w;
    let d = die(&mut w, 1, 100);
    assert_eq!(d.used, 0, "live worm: death block draws NO rand");
    assert_eq!(d.pool.len(), 0, "live worm: no spray");
    assert_eq!(w, before, "live worm untouched");
    assert_eq!(d.killer, None, "no death => no kill attribution");
    assert_eq!(d.lki, -1);
}

#[test]
fn t3_death_sound_lives_visible_timer_and_field_clears() {
    let mut w = dying_worm(0, 0, -1);
    let d = die(&mut w, 0, 0);
    assert_eq!(d.pool.len(), 8, "blood 0 => kMax 0 => NO blood spray; exactly 8 gibs");
    assert_eq!(d.used, 1 + 8 * 2, "the sound, then 8 gibs of angle offset and speed");
    assert!(!w.visible, "visible=false on death");
    assert_eq!(w.killed_timer, 150, "killed_timer = kKilledTimerInitial");
    assert_eq!(w.lives, 4, "--lives: started 5");
    assert_eq!(w.fire_cone, 0, "fire_cone = 0");
    assert_eq!(w.leave_shell_timer, 0, "leave_shell_timer = 0");
    assert!(!w.make_sight_green, "make_sight_green = false");
    assert!(!w.ninjarope.out, "ninjarope.out = false");
    assert!(!w.control_states.get(ControlState::FIRE), "Release(kFire) clears the Fire bit");
    assert_eq!(d.killer, None, "last_killed_by_idx < 0 => no kills++");
    assert_eq!(d.lki, 0, "last_killed_idx = index");
    assert!(d.gc, "got_changed = (old(-1) != 0)");
}

#[test]
fn t3_kills_attributed_to_the_killer_when_a_different_worm() {
    let mut w = dying_worm(1, 0, 0);
    assert_eq!(die(&mut w, 1, 0).killer, Some(0), "killer worm 0 gets kills++");
}

#[test]
fn t3_kills_not_attributed_on_self_kill_or_no_killer() {
    let mut w_self = dying_worm(1, 0, 1);
    assert_eq!(die(&mut w_self, 1, 0).killer, None, "self-kill => no kills++");
    let mut w_none = dying_worm(0, 0, -1);
    assert_eq!(die(&mut w_none, 0, 0).killer, None, "unknown killer (< 0) => no kills++");
}

#[test]
fn t3_blood100_sprays_120_particles_480_draws_plus_8_gibs() {
    let mut w = dying_worm(1, -50, -1);
    let vel = w.vel;
    let d = die(&mut w, 1, 100);
    assert_eq!(d.pool.len(), 128, "120 blood + 8 gibs");
    // Reference replay: the sound, 120 blood launches of angle, speed and two
    // spreads, then 8 gibs (type 1) of angle offset, speed and two spreads.
    let mut refr = Draws::new(death_tape());
    refr.bound(3);
    let (a, sp, dx, dy) = (refr.bound(128), refr.bound(40), refr.bound(20000), refr.bound(20000));
    for _ in 1..120 {
        refr.bound(128);
        refr.bound(40);
        refr.bound(20000);
        refr.bound(20000);
    }
    for _ in 0..8 {
        refr.bound(14);
        refr.bound(20);
        refr.bound(10000);
        refr.bound(10000);
    }
    assert_eq!(d.used, refr.used(), "1 (sound) + 120x4 (blood) + 8x4 (gib[1]) = 513 draws in order");
    assert_eq!(d.used, 513);
    let table = cossin();
    let v = table[a as usize].mul(-(sp as i32)).div(100).add(vel.div(3));
    let first = *d.pool.get(0).expect("first blood particle");
    assert_eq!(first.vel, Vec2::new(v.x + dx as i32 - 10000, v.y + dy as i32 - 10000), "launched with the first replayed draws");
    let blood = (0..600).filter_map(|s| d.pool.get(s)).filter(|o| o.ty == Some(6)).count();
    assert_eq!(blood, 120);
}

#[test]
fn t3_blood1_gate_closed_no_spray_but_8_gibs_still_fire() {
    let mut w = dying_worm(0, 0, -1);
    let d = die(&mut w, 0, 1);
    assert_eq!(d.used, 17, "blood 1 => no blood draws; only sound + 8 gibs");
    assert_eq!(d.pool.len(), 8, "kMax == 1 is NOT > 1 => no blood spray; exactly 8 gibs");
}

#[test]
fn t3_gib_loop_runs_exactly_8_times_pinning_the_i_le_105_bound() {
    let mut w = dying_worm(0, 0, -1);
    let d = die(&mut w, 0, 0);
    assert_eq!(d.pool.len(), 8, "gib loop runs EXACTLY 8 times ({{7,21,..,105}})");
    // Gib k launches along 7 + 14k + offset k; with a zero-speed type the
    // velocity is a third of the worm's plus the scatter.
    assert_eq!(d.pool.get(7).unwrap().ty, Some(0));
}

#[test]
fn t3_gib_spray_uses_the_per_worm_type_not_blood() {
    let mut w0 = dying_worm(0, 0, -1);
    let d0 = die(&mut w0, 0, 0);
    assert!((0..8).all(|s| d0.pool.get(s).unwrap().ty == Some(0)), "worm 0 uses gib[0]");
    let mut w1 = dying_worm(1, 0, -1);
    let d1 = die(&mut w1, 1, 0);
    assert!((0..8).all(|s| d1.pool.get(s).unwrap().ty == Some(1)), "worm 1 uses gib[1]");
    assert_eq!(d0.used, 1 + 8 * 2, "gib[0] has no spread: angle offset and speed");
    assert_eq!(d1.used, 1 + 8 * 4, "gib[1] spreads: angle offset, speed and two spreads");
}

const TSPAWN_X: i32 = 100;
const TSPAWN_Y: i32 = 100;
const TMIN_LAST: i32 = 30;
const TMIN_ENEMY: i32 = 30;
const TSPAWN_W: i32 = 100;
const TSPAWN_H: i32 = 80;

fn flat_level(width: i32, height: i32) -> LevelSim {
    LevelSim { width, height, material_id: vec![0u8; (width * height) as usize], material_flags: [0u8; 256] }
}

fn dead_worm_at(index: usize, px: i32, py: i32) -> WormState {
    let mut w = WormState::from_init(&two_worms()[index]);
    w.visible = false;
    w.pos = Vec2::new(itof(px), itof(py));
    w.logic_respawn = Vec2::new(-999, -999);
    w.killed_timer = 0;
    w
}

/// Runs the respawn search of worm 0 ([`begin_respawn`]) over a tape whose
/// trials draw the given column and row offsets, followed by spare draws;
/// returns how many trials it took (two draws each).
fn search(worms: &mut Vec<WormState>, level: &LevelSim, draws: &[(u32, u32)], min_enemy: i32) -> usize {
    let mut raw = Vec::new();
    for &(dx, dy) in draws {
        raw.push(raw_for(dx, TSPAWN_W as u32));
        raw.push(raw_for(dy, TSPAWN_H as u32));
    }
    raw.extend([7u32; 8]);
    let mut tape = Draws::new(raw);
    begin_respawn(worms, 0, level, TSPAWN_X, TSPAWN_Y, TSPAWN_W, TSPAWN_H, TMIN_LAST, min_enemy, &mut tape);
    assert!(!tape.is_short());
    assert_eq!(tape.used() % 2, 0, "each trial reads a column and a row");
    tape.used() / 2
}

#[test]
fn t4_begin_respawn_one_trial_two_draws_w_then_h_and_sets_logic_respawn() {
    let level = flat_level(400, 400);
    let mut worms = vec![dead_worm_at(0, 1000, 1500), dead_worm_at(1, 3000, 3000)];
    let trials = search(&mut worms, &level, &[(37, 11), (1, 1)], TMIN_ENEMY);
    assert_eq!(worms[0].logic_respawn, Vec2::new(1000 - 80, 1500 - 80), "logic_respawn = death - (80,80)");
    assert_eq!(trials, 1, "1-trial success => exactly 2 draws");
    assert_eq!(worms[0].pos, Vec2::new(itof(137), itof(111)), "pos.x = Itof(X + rand(W)); pos.y = Itof(Y + rand(H))");
    assert_eq!(worms[0].killed_timer, -1, "killed_timer = -1 on exit");
}

#[test]
fn t4_begin_respawn_enemy_too_close_forces_second_trial_four_draws() {
    let level = flat_level(400, 400);
    let mut worms = vec![dead_worm_at(0, 1000, 1500), dead_worm_at(1, 137, 111)];
    let trials = search(&mut worms, &level, &[(37, 11), (80, 70)], 0);
    assert_eq!(trials, 2, "2 trials => 4 draws");
    assert_eq!(worms[0].pos, Vec2::new(itof(180), itof(170)), "trial-1 rejected by the LIVE enemy pos; trial-2 accepted");
    assert_eq!(worms[0].killed_timer, -1);
}

#[test]
fn t4_begin_respawn_rock_in_box_forces_second_trial() {
    let mut level = flat_level(400, 400);
    level.material_flags[9] = MAT_ROCK;
    level.material_id[(137 + 111 * 400) as usize] = 9;
    let mut worms = vec![dead_worm_at(0, 1000, 1500), dead_worm_at(1, 3000, 3000)];
    let trials = search(&mut worms, &level, &[(37, 11), (80, 70)], TMIN_ENEMY);
    assert_eq!(trials, 2, "rock reject => 2nd trial => 4 draws");
    assert_eq!(worms[0].pos, Vec2::new(itof(180), itof(170)));
}

#[test]
fn t4_begin_respawn_dropdown_is_rand_free_and_moves_pos_down() {
    let (width, height, floor) = (400, 250, 200);
    let mut level = flat_level(width, height);
    level.material_flags[8] = MAT_BACKGROUND;
    for y in 0..floor {
        for x in 0..width {
            level.material_id[(x + y * width) as usize] = 8;
        }
    }
    let mut worms = vec![dead_worm_at(0, 1000, 1900), dead_worm_at(1, 3000, 3000)];
    let trials = search(&mut worms, &level, &[(37, 11)], TMIN_ENEMY);
    assert_eq!(trials, 1, "drop-down draws NO rand => still 2 draws");
    assert_eq!(ftoi(worms[0].pos.y), floor - 4, "slid down to rest on the floor");
    assert_eq!(ftoi(worms[0].pos.x), 137, "x is unchanged by the drop-down");
    assert_eq!(worms[0].killed_timer, -1);
}

#[test]
fn t4_begin_respawn_single_worm_enemy_defaults_to_death_pos() {
    let level = flat_level(400, 400);
    let mut worms = vec![dead_worm_at(0, 137, 111)];
    let trials = search(&mut worms, &level, &[(37, 11), (80, 70)], 0);
    assert_eq!(trials, 2, "len!=2: enemy=temp; trial-1 rejected => 4 draws");
    assert_eq!(worms[0].pos, Vec2::new(itof(180), itof(170)));
    assert_eq!(worms[0].logic_respawn, Vec2::new(137 - 80, 111 - 80), "logic_respawn still = death - (80,80)");
}

#[test]
fn t4_begin_respawn_trials_guard_breaks_at_50000() {
    // The enemy's minimum distance covers the whole spawn rectangle, so every
    // trial is rejected until the 50000th ends the search.
    let level = flat_level(600, 600);
    let mut worms = vec![dead_worm_at(0, 1000, 1500), dead_worm_at(1, 150, 140)];
    let big = 100_000;
    let mut tape = Draws::new(vec![0x5555_5555; 100_010]);
    begin_respawn(&mut worms, 0, &level, TSPAWN_X, TSPAWN_Y, TSPAWN_W, TSPAWN_H, TMIN_LAST, big, &mut tape);
    assert_eq!(tape.used(), 100_000, "50000 trials x 2 draws each; the loop broke, not hung");
    assert_eq!(worms[0].killed_timer, -1, "killed_timer = -1 even on the guard break");
    // The single trial step agrees: the 50000th trial ends the search.
    let anchor = start_respawn(&mut vec![dead_worm_at(0, 1000, 1500), dead_worm_at(1, 150, 140)], 0);
    let mut w = dead_worm_at(0, 1000, 1500);
    assert!(!respawn_trial(&mut w, &level, TSPAWN_X, TSPAWN_Y, 50, 40, anchor, TMIN_LAST, big, 100));
    assert_eq!(w.killed_timer, 0, "a rejected trial keeps searching");
    assert!(respawn_trial(&mut w, &level, TSPAWN_X, TSPAWN_Y, 50, 40, anchor, TMIN_LAST, big, 49_999));
    assert_eq!(w.killed_timer, -1);
}

fn dirt_sprites() -> SpriteSet {
    SpriteSet { width: 16, height: 16, count: 1, data: vec![0u8; 256] }
}

fn dirt_texture() -> Texture {
    Texture { sframe: 0, rframe: 1, mframe: 0, ndrawback: false }
}

fn respawn_worm(px: i32, py: i32, logic: (i32, i32), ready: bool) -> WormState {
    let mut w = WormState::from_init(&two_worms()[0]);
    w.visible = false;
    w.killed_timer = -1;
    w.pos = Vec2::new(itof(px), itof(py));
    w.logic_respawn = Vec2::new(logic.0, logic.1);
    w.ready = ready;
    w
}

/// One drop-in tick of `w` ([`respawn_tick`]) reading `raw`; returns whether
/// the respawn completed and how many draws it read.
fn drop_in(w: &mut WormState, level: &mut LevelSim, raw: &[u32]) -> (bool, usize) {
    let sprites = dirt_sprites();
    let tex = [dirt_texture()];
    let mut draws = Draws::new(raw.to_vec());
    let done = respawn_tick(w, level, &sprites, &tex, 100, &mut draws);
    (done, draws.used())
}

#[test]
fn t5_do_respawning_steps_logic_respawn_four_times_by_one_no_rand() {
    let mut level = flat_level(400, 400);
    let mut w = respawn_worm(150, 150, (0, 200), true);
    let (complete, used) = drop_in(&mut w, &mut level, &[5, 6, 7]);
    assert_eq!(w.logic_respawn, Vec2::new(4, 196), "logic_respawn stepped +/-1 four times toward Ftoi(pos)-80, per axis");
    assert!(!complete);
    assert_eq!(used, 0, "not converged => zero rand draws");
    assert!(!w.visible, "not converged => no respawn (still invisible)");
    assert!(w.ready, "not converged => ready untouched");
}

#[test]
fn t5_do_respawning_limit_xy_clamps_logic_respawn_both_bounds() {
    let mut level = flat_level(200, 200);
    let mut w = respawn_worm(150, 150, (1000, 1000), false);
    let (complete, used) = drop_in(&mut w, &mut level, &[5, 6, 7]);
    assert!(!complete);
    assert_eq!(used, 0, "ready=false => no draw even when (clamped) converged");
    assert_eq!(w.logic_respawn, Vec2::new(42, 42), "clamped to [.,width-158]=42");
    let mut w2 = respawn_worm(150, 150, (-1000, -1000), false);
    drop_in(&mut w2, &mut level, &[5, 6, 7]);
    assert_eq!(w2.logic_respawn, Vec2::new(0, 0), "clamped to [0,.]");
}

#[test]
fn t5_do_respawning_converged_but_not_ready_does_nothing() {
    let mut level = flat_level(400, 400);
    let mut w = respawn_worm(150, 150, (70, 70), false);
    let (complete, used) = drop_in(&mut w, &mut level, &[5, 6, 7]);
    assert!(!complete);
    assert_eq!(used, 0, "converged but !ready => zero rand draws");
    assert!(!w.visible, "converged but !ready => no respawn");
    assert_eq!(w.logic_respawn, Vec2::new(70, 70), "already at target, unmoved");
}

#[test]
fn t5_do_respawning_converged_and_ready_draws_dirt_then_aiming_bit_both_branches() {
    let mut seen = [false; 2];
    for raw in [0u32, 1, 2, 0xffff_ffff] {
        let mut level = flat_level(400, 400);
        let mut w = respawn_worm(150, 150, (70, 70), true);
        w.fire_cone = 99;
        w.vel = Vec2::new(5, 5);
        w.health = 1;
        w.aiming_angle = 12345;
        w.direction = 9;
        // The dirt puff's fill draw below rframe 1 first, then the raw facing draw.
        let tape = [0x1234_5678, raw, 0xdead_beef];
        let (complete, used) = drop_in(&mut w, &mut level, &tape);
        assert!(complete, "converged and ready => the respawn completes");
        assert_eq!(used, 2, "dirt rand(rframe) THEN the lone no-arg rand()&1 (exactly 2 draws, in order)");
        assert!(!w.ready, "ready cleared");
        assert!(w.visible, "visible = true");
        assert_eq!(w.fire_cone, 0, "fire_cone = 0");
        assert_eq!(w.vel, Vec2::zero(), "vel.Zero()");
        assert_eq!(w.health, 100, "health = settings_health");
        if raw & 1 != 0 {
            assert_eq!(w.aiming_angle, itof(32), "odd bit => Itof(32)");
            assert_eq!(w.direction, 0, "odd bit => direction 0");
        } else {
            assert_eq!(w.aiming_angle, itof(96), "even bit => Itof(96)");
            assert_eq!(w.direction, 1, "even bit => direction 1");
        }
        seen[(raw & 1) as usize] = true;
    }
    assert!(seen[0] && seen[1], "both `rand() & 1` branches (odd->Itof(32)/dir0, even->Itof(96)/dir1) exercised");
}

#[test]
fn t5_do_respawning_aiming_uses_raw_low_bit_not_bound2_high_bit() {
    // 0x8000_0000 has low bit 0 but its bound(2) high bit is 1.
    let raw = 0x8000_0000u32;
    let mut level = flat_level(400, 400);
    let mut w = respawn_worm(150, 150, (70, 70), true);
    let (complete, used) = drop_in(&mut w, &mut level, &[0, raw]);
    assert!(complete);
    assert_eq!(used, 2);
    assert_eq!(w.aiming_angle, itof(96));
    assert_eq!(w.direction, 1);
}

#[test]
fn do_respawning_ignores_a_worm_still_counting_down() {
    let level = flat_level(400, 400);
    let mut w = respawn_worm(150, 150, (0, 0), true);
    w.killed_timer = 3;
    let before = w;
    assert!(!do_respawning(&mut w, &level));
    assert_eq!(w, before);
}

fn drip_worm(health: i32) -> WormState {
    let mut w = WormState::from_init(&two_worms()[1]);
    w.health = health;
    w
}

fn blood_types() -> Vec<NObjectType> {
    let mut v = vec![NObjectType::default(); 7];
    v[6] = NObjectType { distribution: 10000, start_frame: 0, color_bullets: 0, ..Default::default() };
    v
}

/// The raw output whose draw below `n` is `d`.
fn raw_for(d: u32, n: u32) -> u32 {
    ((((d as u64) << 32) + n as u64 - 1) / n as u64) as u32
}

#[test]
fn t2_drip_gate_closed_at_or_above_quarter_health_draws_nothing() {
    let w = drip_worm(25);
    let types = blood_types();
    let mut pool: Pool<NObject> = Pool::new(600);
    let mut draws = Draws::new(vec![0; 8]);
    worm_pre_death_drip(&w, 1, 100, &types, &mut draws, &mut pool);
    assert_eq!(draws.used(), 0, "closed gate draws nothing");
    assert_eq!(pool.len(), 0, "closed gate spawns nothing");
}

#[test]
fn t2_drip_nonzero_outer_draws_one_and_spawns_nothing() {
    let w = drip_worm(24);
    let types = blood_types();
    let mut pool: Pool<NObject> = Pool::new(600);
    let mut draws = Draws::new(vec![raw_for(17, 30), 0, 0, 0, 0]);
    worm_pre_death_drip(&w, 1, 100, &types, &mut draws, &mut pool);
    assert_eq!(draws.used(), 1, "exactly one outer draw");
    assert_eq!(pool.len(), 0, "non-zero outer => no blood spawn");
}

#[test]
fn t2_drip_zero_outer_nonzero_inner_spawns_without_sound() {
    let w = drip_worm(-5);
    let types = blood_types();
    let mut pool: Pool<NObject> = Pool::new(600);
    let mut draws = Draws::new(vec![u32::MAX, raw_for(1, 3), raw_for(15000, 20000), raw_for(5000, 20000)]);
    worm_pre_death_drip(&w, 1, 100, &types, &mut draws, &mut pool);
    assert_eq!(draws.used(), 4, "outer + inner + the two scatter draws; no sound draw");
    assert_eq!(pool.len(), 1, "the drip spawns regardless of the sound gate");
    let b = *pool.get(0).expect("blood in slot 0");
    assert_eq!(b.vel, Vec2::new(w.vel.x + 10000 - 15000, w.vel.y + 10000 - 5000), "first scatter form");
    assert_eq!(b.pos, w.pos, "spawned at the worm, not moved");
    assert_eq!(b.owner_idx, 1);
}

#[test]
fn t2_drip_zero_outer_zero_inner_draws_sound_then_spawns() {
    let w = drip_worm(-5);
    let types = blood_types();
    let mut pool: Pool<NObject> = Pool::new(600);
    let mut draws = Draws::new(vec![0, 0, 0, 0, 0, 0]);
    worm_pre_death_drip(&w, 1, 100, &types, &mut draws, &mut pool);
    assert_eq!(draws.used(), 5, "outer + inner + sound + the two scatter draws");
    assert_eq!(pool.len(), 1, "blood spawns after the sound draw");
}

#[test]
fn begin_respawn_reads_the_column_then_the_row_of_each_trial() {
    let level = flat_level(400, 400);
    let mut worms = vec![dead_worm_at(0, 1000, 1500), dead_worm_at(1, 3000, 3000)];
    let mut draws = Draws::new(vec![raw_for(37, 200), raw_for(11, 200), raw_for(1, 200), raw_for(1, 200)]);
    begin_respawn(&mut worms, 0, &level, TSPAWN_X, TSPAWN_Y, 200, 200, TMIN_LAST, TMIN_ENEMY, &mut draws);
    assert_eq!(draws.used(), 2, "one accepted trial reads two draws");
    assert_eq!(worms[0].pos, Vec2::new(itof(137), itof(111)));
    assert_eq!(worms[0].logic_respawn, Vec2::new(1000 - 80, 1500 - 80));
    assert_eq!(worms[0].killed_timer, -1);
    assert_eq!(worms[1], dead_worm_at(1, 3000, 3000), "the other worm is untouched");
}

#[test]
fn begin_respawn_tries_again_after_a_rejected_position() {
    let level = flat_level(400, 400);
    let mut worms = vec![dead_worm_at(0, 1000, 1500), dead_worm_at(1, 137, 111)];
    let mut draws = Draws::new(vec![raw_for(37, 200), raw_for(11, 200), raw_for(80, 200), raw_for(70, 200)]);
    begin_respawn(&mut worms, 0, &level, TSPAWN_X, TSPAWN_Y, 200, 200, TMIN_LAST, 0, &mut draws);
    assert_eq!(draws.used(), 4, "two trials read four draws");
    assert_eq!(worms[0].pos, Vec2::new(itof(180), itof(170)));
    assert_eq!(worms[0].killed_timer, -1);
}

#[test]
fn respawn_tick_reads_the_fill_then_the_facing_when_it_completes() {
    let sprites = dirt_sprites();
    let tex = [dirt_texture()];
    let mut level = flat_level(400, 400);
    let mut w = respawn_worm(150, 150, (70, 70), true);
    let mut draws = Draws::new(vec![0, 1, 7]);
    assert!(respawn_tick(&mut w, &mut level, &sprites, &tex, 100, &mut draws));
    assert_eq!(draws.used(), 2, "the fill draw and the raw facing draw");
    assert!(w.visible);
    assert_eq!(w.health, 100);
    assert_eq!(w.aiming_angle, itof(32), "odd raw value => facing left-up");
    assert_eq!(w.direction, 0);
}

#[test]
fn respawn_tick_reads_nothing_until_the_worm_is_ready() {
    let sprites = dirt_sprites();
    let tex = [dirt_texture()];
    let mut level = flat_level(400, 400);
    let mut w = respawn_worm(150, 150, (70, 70), false);
    let mut draws = Draws::new(vec![0, 1]);
    assert!(!respawn_tick(&mut w, &mut level, &sprites, &tex, 100, &mut draws));
    assert_eq!(draws.used(), 0);
    assert!(!w.visible);
}

#[test]
fn worm_death_on_tape_reads_sound_blood_then_gibs() {
    let types = death_types();
    let table = cossin();
    let mut w = dying_worm(0, 0, 1);
    let mut pool: Pool<NObject> = Pool::new(600);
    let (mut lki, mut gc) = (-1i32, false);
    let mut draws = Draws::new(vec![0; 600]);
    let killer = worm_death_on_tape(&mut w, 0, 100, &types, &table, &mut draws, &mut pool, &mut lki, &mut gc);
    // Sound 1; 120 blood launches of angle, speed and two scatter draws (480);
    // eight gibs of offset and speed (16).
    assert_eq!(draws.used(), 497);
    assert_eq!(pool.len(), 128);
    assert_eq!(killer, Some(1));
    assert_eq!(w.lives, 4);
    assert!(!w.visible);
}

#[test]
fn worm_death_on_tape_leaves_a_living_worm_and_the_tape_alone() {
    let types = death_types();
    let table = cossin();
    let mut w = dying_worm(0, 5, 1);
    let before = w;
    let mut pool: Pool<NObject> = Pool::new(600);
    let (mut lki, mut gc) = (-1i32, false);
    let mut draws = Draws::new(vec![0; 8]);
    assert_eq!(worm_death_on_tape(&mut w, 0, 100, &types, &table, &mut draws, &mut pool, &mut lki, &mut gc), None);
    assert_eq!(draws.used(), 0);
    assert_eq!(w, before);
    assert_eq!(pool.len(), 0);
}

#[test]
fn dead_worm_step_counts_down_then_searches_and_drops_in_on_the_same_tick() {
    let sprites = dirt_sprites();
    let tex = [dirt_texture()];
    let mut level = flat_level(400, 400);
    let mut worms = vec![dead_worm_at(0, 1000, 1500), dead_worm_at(1, 3000, 3000)];
    worms[0].killed_timer = 1;
    let mut draws = Draws::new(vec![raw_for(37, 200), raw_for(11, 200), 0, 0]);
    let done = dead_worm_step(&mut worms, 0, &mut level, &sprites, &tex, 100, TSPAWN_X, TSPAWN_Y, 200, 200, TMIN_LAST,
        TMIN_ENEMY, &mut draws);
    assert!(!done, "not ready: the drop-in does not complete");
    assert_eq!(draws.used(), 2, "only the search's trial draws");
    assert_eq!(worms[0].killed_timer, -1);
    assert_eq!(worms[0].pos, Vec2::new(itof(137), itof(111)));
    // The drop-in cursor started at the death pixel less 80 and took four steps
    // toward the new position less 80, then was clamped to the level.
    assert_eq!(worms[0].logic_respawn, Vec2::new(242, 242));
}

#[test]
fn dead_worm_step_only_counts_down_while_the_timer_runs() {
    let sprites = dirt_sprites();
    let tex = [dirt_texture()];
    let mut level = flat_level(400, 400);
    let mut worms = vec![dead_worm_at(0, 1000, 1500), dead_worm_at(1, 3000, 3000)];
    worms[0].killed_timer = 5;
    let mut draws = Draws::new(vec![0; 4]);
    assert!(!dead_worm_step(&mut worms, 0, &mut level, &sprites, &tex, 100, TSPAWN_X, TSPAWN_Y, 200, 200, TMIN_LAST,
        TMIN_ENEMY, &mut draws));
    assert_eq!(draws.used(), 0);
    assert_eq!(worms[0].killed_timer, 4);
}
