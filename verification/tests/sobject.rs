use sim::blit::{draw_dirt_effect, SpriteSet, Texture};
use sim::fixed::{itof, Vec2};
use sim::nobject::{nobject_create2, SpawnDraws};
use sim::object_types::{NObjectType, SObjectType, Weapon};
use sim::pool::Pool;
use sim::draws::Draws;
use sim::sobject::{
    sobject_create, blow_away_nobjects, blow_away_wobjects, dirt_throw_cells, process_sobjects, sobject_process, sobject_spawn, worm_blast,
    SObjectOutcome,
};
use sim::state::{
    LevelSim, NObject, SObject, WObject, WeaponInit, WormInit, WormState, MAT_BACKGROUND, MAT_DIRT, MAT_ROCK, NUM_WEAPONS,
};

fn small_explosion(dirt_effect: i32) -> SObjectType {
    SObjectType {
        id: 2,
        start_sound: 0,
        num_sounds: 2,
        anim_delay: 2,
        start_frame: 0,
        num_frames: 5,
        detect_range: 8,
        damage: 5,
        blow_away: 3000,
        dirt_effect,
        ..Default::default()
    }
}

fn bg_level(width: i32, height: i32) -> LevelSim {
    let mut material_flags = [0u8; 256];
    material_flags[0] = MAT_BACKGROUND;
    material_flags[1] = MAT_ROCK;
    LevelSim { width, height, material_id: vec![0u8; (width * height) as usize], material_flags }
}

fn worm_at(px: i32, py: i32, health: i32) -> WormState {
    let mut w = WormState::from_init(&WormInit {
        index: 0,
        health,
        lives: 5,
        stats_x: 0,
        weapons: [WeaponInit::default(); NUM_WEAPONS],
        start_pos: Vec2::new(itof(px), itof(py)),
        visible: true,
    });
    w.vel = Vec2::zero();
    w
}

fn cossin() -> [Vec2; 128] {
    let mut t = [Vec2::zero(); 128];
    for (i, c) in t.iter_mut().enumerate() {
        *c = Vec2::new((i as i32 - 64) * 1000, (32 - i as i32) * 500);
    }
    t
}

fn blood_nobject() -> NObjectType {
    NObjectType { id: 6, speed: 100, speed_v: 40, distribution: 20000, blood_trail: true, ..Default::default() }
}

#[test]
fn sobject_spawn_inits_the_object_at_its_corner() {
    let ty = small_explosion(-1);
    let mut sobjects: Pool<SObject> = Pool::new(700);
    let slot = sobject_spawn(&mut sobjects, &ty, 50, 50);
    assert_eq!(slot, 0);
    assert_eq!(sobjects.len(), 1, "exactly one sobject spawned");
    let obj = *sobjects.get(0).expect("sobject in slot 0");
    assert_eq!(obj.id, 2, "obj.id = type id");
    assert_eq!(obj.x, 42, "obj.x = x - 8");
    assert_eq!(obj.y, 42, "obj.y = y - 8");
    assert_eq!(obj.cur_frame, 0, "obj.cur_frame = 0");
    assert_eq!(obj.anim_delay, 2, "obj.anim_delay = type anim_delay");
}

#[test]
fn worm_blast_outside_box_leaves_the_worm() {
    let ty = small_explosion(-1);
    let mut w = worm_at(59, 50, 100);
    let before = w;
    assert_eq!(worm_blast(&mut w, &ty, 50, 50, 1, 100), None);
    assert_eq!(w, before, "out-of-range worm not nudged");
}

#[test]
fn worm_blast_nudges_a_dead_worm_without_blood() {
    let ty = small_explosion(-1);
    let mut w = worm_at(57, 50, 0);
    assert_eq!(worm_blast(&mut w, &ty, 50, 50, 1, 100), None, "dead worm: no blood");
    assert_eq!(w.vel.x, 3000, "in-box worm gets x blow-away nudge");
    assert_eq!(w.vel.y, -(3000 * 8), "in-box worm gets y blow-away nudge (delta 0 -> minus branch)");
    assert_eq!(w.health, 0, "dead worm takes no damage");
}

#[test]
fn worm_blast_wounds_and_counts_the_blood() {
    let ty = small_explosion(-1);
    let mut w = worm_at(57, 50, 100);
    let amount = worm_blast(&mut w, &ty, 50, 50, 1, 100);
    assert_eq!(amount, Some(4), "kBloodAmount = blood * power_sum / 100 = 4");
    assert_eq!(w.health, 98, "health reduced by z = 2 (wound)");
    assert_eq!(w.last_killed_by_idx, -1, "wound does NOT set last_killed_by_idx");
    assert_eq!(w.vel, Vec2::new(3000, -24000), "vel = post blow-away nudge");
    // The caller then sprays the blood from the worm with a third of its velocity.
    let table = cossin();
    let mut nts = vec![NObjectType::default(); 7];
    nts[6] = blood_nobject();
    let mut nobjects: Pool<NObject> = Pool::new(600);
    for k in 0..amount.unwrap() {
        let d = SpawnDraws { speed: 3, dist_x: 100, dist_y: 200, ..Default::default() };
        nobject_create2(&nts[6], 10 * k, w.vel.div(3), w.pos, 0, w.index, &table, &d, &mut nobjects);
    }
    assert_eq!(nobjects.len(), 4);
    for k in 0..nobjects.capacity() {
        if let Some(b) = nobjects.get(k) {
            assert_eq!(b.ty, Some(6), "blood nobject {k} is nobject_types[6]");
            assert_eq!(b.owner_idx, 0, "blood nobject {k} owned by w.index");
        }
    }
}

#[test]
fn worm_blast_outside_box_does_no_damage() {
    let ty = small_explosion(-1);
    let mut w = worm_at(59, 50, 100);
    assert_eq!(worm_blast(&mut w, &ty, 50, 50, 1, 100), None, "no blood");
    assert_eq!(w.health, 100, "out-of-range worm takes no damage");
    assert_eq!(w.vel, Vec2::zero(), "out-of-range worm not nudged");
}

#[test]
fn worm_blast_with_zero_blood_still_wounds() {
    let ty = small_explosion(-1);
    let mut w = worm_at(57, 50, 100);
    assert_eq!(worm_blast(&mut w, &ty, 50, 50, 1, 0), Some(0), "blood = 0 -> zero particles");
    assert_eq!(w.health, 98, "DoDamage still applied with blood = 0");
}

#[test]
fn worm_blast_kill_records_the_owner() {
    let ty = SObjectType { damage: 400, ..small_explosion(-1) };
    let mut w = worm_at(50, 50, 10);
    // power 8 on both axes: power_sum 8, z = 400 * 8 / 8 = 400.
    assert_eq!(worm_blast(&mut w, &ty, 50, 50, 1, 50), Some(4));
    assert_eq!(w.health, -390);
    assert_eq!(w.last_killed_by_idx, 1);
}

fn chequered_dirt_level(cx: i32, cy: i32, kwidth: i32, dirt_mat: u8) -> LevelSim {
    let mut level = bg_level(100, 100);
    level.material_flags[dirt_mat as usize] = MAT_DIRT;
    for yy in (cy - kwidth)..(cy + kwidth + 1) {
        for xx in (cx - kwidth)..(cx + kwidth + 1) {
            if (xx + yy) % 2 == 0 {
                level.material_id[(yy * level.width + xx) as usize] = dirt_mat;
            }
        }
    }
    level
}

#[test]
fn dirt_throw_cells_are_row_major_dirt_only() {
    let (cx, cy) = (50, 50);
    let dirt_mat: u8 = 10;
    let level = chequered_dirt_level(cx, cy, 4, dirt_mat);
    let cells = dirt_throw_cells(&level, cx, cy, small_explosion(-1).detect_range);
    let mut expected = Vec::new();
    for yy in (cy - 4)..(cy + 5) {
        for xx in (cx - 4)..(cx + 5) {
            if (xx + yy) % 2 == 0 {
                expected.push((xx, yy, dirt_mat as i32));
            }
        }
    }
    assert_eq!(cells, expected, "dirt cells only, row-major, with their material");
    assert_eq!(cells.len(), 41);
}

#[test]
fn dirt_throw_cells_of_a_dirt_free_box_are_none() {
    let level = bg_level(100, 100);
    assert!(dirt_throw_cells(&level, 50, 50, 8).is_empty(), "no dirt -> no cell draws");
}

#[test]
fn dirt_throw_box_is_clipped_to_the_level() {
    let mut level = bg_level(10, 10);
    level.material_flags[5] = MAT_DIRT;
    for v in level.material_id.iter_mut() {
        *v = 5;
    }
    let cells = dirt_throw_cells(&level, 0, 9, 8);
    // [0-4, 0+5) x [9-4, 9+5) clipped to [0,5) x [5,10).
    assert_eq!(cells.len(), 25);
    assert_eq!(cells[0], (0, 5, 5));
    assert_eq!(cells[24], (4, 9, 5));
}

fn make_sprites(count: i32, overrides: &[(usize, Vec<u8>)]) -> SpriteSet {
    let mut data = vec![0u8; count as usize * 256];
    for (idx, bytes) in overrides {
        data[idx * 256..idx * 256 + 256].copy_from_slice(bytes);
    }
    SpriteSet { width: 16, height: 16, count, data }
}

#[test]
fn dirt_throw_cells_keep_the_material_the_crater_removes() {
    let (cx, cy) = (40, 40);
    let dirt_mat: u8 = 10;
    let fill_mat: u8 = 7;
    let mut level = bg_level(80, 80);
    level.material_flags[dirt_mat as usize] = MAT_DIRT;
    level.material_flags[fill_mat as usize] = MAT_BACKGROUND;
    for yy in (cy - 7)..(cy + 9) {
        for xx in (cx - 7)..(cx + 9) {
            level.material_id[(yy * level.width + xx) as usize] = dirt_mat;
        }
    }
    let sprites = make_sprites(84, &[(38, vec![6u8; 256]), (82, vec![fill_mat; 256]), (83, vec![fill_mat; 256])]);
    let mut textures = vec![Texture { sframe: 0, rframe: 0, mframe: 0, ndrawback: false }; 3];
    textures[2] = Texture { sframe: 82, rframe: 2, mframe: 38, ndrawback: true };
    // The dirt throw reads the terrain before the crater.
    let cells = dirt_throw_cells(&level, cx, cy, 8);
    assert_eq!(cells.len(), 81, "the whole 9x9 box is dirt");
    draw_dirt_effect(&mut level, &sprites, &textures, 2, cx - 7, cy - 7, 1);
    assert_eq!(level.material_id[(cy * level.width + cx) as usize], fill_mat, "carve cleared the box dirt");
    assert!(cells.iter().all(|c| c.2 == dirt_mat as i32), "cells carry the PRE-CARVE material");
    assert!(!level.material_id.iter().any(|&m| m == dirt_mat), "carve cleared every dirt cell in the window");
}

#[test]
fn process_advances_frame_every_anim_delay_and_frees_past_num_frames() {
    let ty = small_explosion(-1);
    let mut obj = SObject { id: 2, x: 0, y: 0, cur_frame: 0, anim_delay: ty.anim_delay };
    let mut frames_seen = Vec::new();
    let mut freed_at = None;
    for tick in 1..=20 {
        match sobject_process(&mut obj, &ty) {
            SObjectOutcome::Keep => frames_seen.push((tick, obj.cur_frame)),
            SObjectOutcome::Free => {
                freed_at = Some(tick);
                break;
            }
        }
    }
    assert_eq!(freed_at, Some(12), "frees on tick 12 (cur_frame 6 > 5)");
    assert_eq!(
        frames_seen,
        vec![(1, 0), (2, 1), (3, 1), (4, 2), (5, 2), (6, 3), (7, 3), (8, 4), (9, 4), (10, 5), (11, 5)],
        "cur_frame steps every anim_delay=2 ticks"
    );
}

#[test]
fn process_draws_no_rand_and_lives_num_frames_plus_one() {
    let mut ty = small_explosion(-1);
    ty.anim_delay = 1;
    ty.num_frames = 3;
    let mut obj = SObject { id: 2, x: 0, y: 0, cur_frame: 0, anim_delay: 1 };
    let mut distinct_frames = vec![obj.cur_frame];
    let mut freed_at = None;
    for tick in 1..=10 {
        match sobject_process(&mut obj, &ty) {
            SObjectOutcome::Keep => distinct_frames.push(obj.cur_frame),
            SObjectOutcome::Free => {
                freed_at = Some(tick);
                break;
            }
        }
    }
    assert_eq!(freed_at, Some(4), "anim_delay 1: frees on tick num_frames+1");
    assert_eq!(distinct_frames, vec![0, 1, 2, 3]);
}

#[test]
fn blow_away_pushes_only_affected_objects_in_the_box() {
    let ty = small_explosion(-1);
    let weapons = vec![
        Weapon { id: 0, affect_by_explosions: true, ..Default::default() },
        Weapon { id: 1, affect_by_explosions: false, ..Default::default() },
    ];
    let mut wobjects: Pool<WObject> = Pool::new(4);
    let near = WObject { pos: Vec2::new(itof(53), itof(50)), ty: Some(0), ..Default::default() };
    let unaffected = WObject { ty: Some(1), ..near };
    let far = WObject { pos: Vec2::new(itof(70), itof(50)), ..near };
    wobjects.spawn(near);
    wobjects.spawn(unaffected);
    wobjects.spawn(far);
    blow_away_wobjects(&mut wobjects, &weapons, &ty, 50, 50);
    // k = 3000 / 3 = 1000; x: delta 3, power 5 -> +5000; y: delta 0 -> unchanged.
    assert_eq!(wobjects.get(0).unwrap().vel, Vec2::new(5000, 0));
    assert_eq!(wobjects.get(1).unwrap().vel, Vec2::zero(), "weapon not affected by explosions");
    assert_eq!(wobjects.get(2).unwrap().vel, Vec2::zero(), "outside the box");

    let types = vec![NObjectType { id: 0, affect_by_explosions: true, ..Default::default() }];
    let mut nobjects: Pool<NObject> = Pool::new(4);
    nobjects.spawn(NObject { pos: Vec2::new(itof(48), itof(46)), ty: Some(0), ..Default::default() });
    blow_away_nobjects(&mut nobjects, &types, &ty, 50, 50);
    // x: delta -2, power 6 -> -6000; y: delta -4, power 4 -> -4000.
    assert_eq!(nobjects.get(0).unwrap().vel, Vec2::new(-6000, -4000));
}

#[test]
fn explosion_object_lives_num_frames_plus_one_frames_of_anim_delay_ticks() {
    let ty = small_explosion(-1);
    let mut sobjects: Pool<SObject> = Pool::new(4);
    let slot = sobject_spawn(&mut sobjects, &ty, 50, 50);
    let mut obj = *sobjects.get(slot).expect("spawned");
    let mut ended_at = None;
    for tick in 1..=100 {
        if sobject_process(&mut obj, &ty) == SObjectOutcome::Free {
            ended_at = Some(tick);
            break;
        }
        assert_eq!(obj.cur_frame, tick / 2, "frame n / anim_delay");
        assert_eq!(obj.anim_delay, 2 - tick % 2, "anim_delay - n % anim_delay ticks left");
    }
    assert_eq!(ended_at, Some((5 + 1) * 2), "ends after (num_frames + 1) * anim_delay ticks");
}

#[test]
fn process_sobjects_ticks_every_live_object_and_frees_the_finished_ones() {
    let mut short = small_explosion(-1);
    short.id = 0;
    short.anim_delay = 1;
    short.num_frames = 0;
    let long = small_explosion(-1);
    let types = vec![short, SObjectType::default(), long];
    let mut sobjects: Pool<SObject> = Pool::new(4);
    sobjects.spawn(SObject { id: 2, x: 1, y: 1, cur_frame: 0, anim_delay: 2 });
    sobjects.spawn(SObject { id: 0, x: 2, y: 2, cur_frame: 0, anim_delay: 1 });
    sobjects.spawn(SObject { id: 2, x: 3, y: 3, cur_frame: 1, anim_delay: 1 });
    process_sobjects(&mut sobjects, &types);
    assert_eq!(sobjects.len(), 2, "the one-frame object ended");
    assert!(sobjects.get(1).is_none());
    assert_eq!(*sobjects.get(0).unwrap(), SObject { id: 2, x: 1, y: 1, cur_frame: 0, anim_delay: 1 });
    assert_eq!(*sobjects.get(2).unwrap(), SObject { id: 2, x: 3, y: 3, cur_frame: 2, anim_delay: 2 });
}

// ---------------------------------------------------------------------------
// The whole explosion, reading a draw tape
// ---------------------------------------------------------------------------

/// A tape of distinct raw outputs, so that a reordered or miscounted draw
/// changes what the explosion does.
fn tape(n: usize) -> Vec<u32> {
    let mut x: u32 = 0x4242;
    (0..n)
        .map(|_| {
            x = x.wrapping_mul(1664525).wrapping_add(1013904223);
            x
        })
        .collect()
}

/// The dirt debris type 2: a speed draw below 40 and two spread draws below
/// 20000, its frame the cell colour without a draw.
fn dirt_nobject() -> NObjectType {
    NObjectType {
        id: 2,
        speed: 100,
        speed_v: 40,
        distribution: 10000,
        start_frame: 0,
        num_frames: 0,
        color_bullets: 0,
        time_to_explo: 0,
        time_to_explo_v: 0,
        ..Default::default()
    }
}

/// Type 2 is the dirt debris and type 6 the blood.
fn explosion_nts() -> Vec<NObjectType> {
    let mut v = vec![NObjectType::default(); 7];
    v[2] = dirt_nobject();
    v[6] = blood_nobject();
    v
}

fn no_sprites() -> SpriteSet {
    SpriteSet { width: 16, height: 16, count: 0, data: Vec::new() }
}

struct Pools {
    wobjects: Pool<WObject>,
    nobjects: Pool<NObject>,
    sobjects: Pool<SObject>,
}

fn empty_pools() -> Pools {
    Pools { wobjects: Pool::new(600), nobjects: Pool::new(600), sobjects: Pool::new(700) }
}

/// Runs the explosion of `ty` at `(x, y)` from `owner_idx` over `raw`.
fn explode(
    ty: &SObjectType,
    x: i32,
    y: i32,
    owner_idx: i32,
    worms: &mut Vec<WormState>,
    level: &mut LevelSim,
    sprites: &SpriteSet,
    textures: &[Texture],
    blood: i32,
    raw: &[u32],
) -> (Pools, Draws) {
    let table = cossin();
    let nts = explosion_nts();
    let mut p = empty_pools();
    let mut draws = Draws::new(raw.to_vec());
    sobject_create(
        ty, x, y, owner_idx, worms, &mut p.wobjects, &[], &mut p.nobjects, &nts, level, &table, sprites, textures,
        &mut p.sobjects, blood, &mut draws,
    );
    assert!(!draws.is_short(), "the tape is long enough");
    (p, draws)
}

#[test]
fn create_inits_sobject_and_draws_one_sound_rand_first() {
    let ty = small_explosion(-1);
    let mut level = bg_level(100, 100);
    let mut worms: Vec<WormState> = Vec::new();
    let raw = tape(16);
    let (p, draws) = explode(&ty, 50, 50, 1, &mut worms, &mut level, &no_sprites(), &[], 100, &raw);
    assert_eq!(p.sobjects.len(), 1, "exactly one sobject spawned");
    let obj = *p.sobjects.get(0).expect("sobject in slot 0");
    assert_eq!(obj.id, 2, "obj.id = type id");
    assert_eq!(obj.x, 42, "obj.x = x - 8");
    assert_eq!(obj.y, 42, "obj.y = y - 8");
    assert_eq!(obj.cur_frame, 0, "obj.cur_frame = 0");
    assert_eq!(obj.anim_delay, 2, "obj.anim_delay = type anim_delay");
    // Exactly one draw, the sound, and it is the first output of the tape.
    let mut refr = Draws::new(raw.clone());
    refr.bound(2);
    assert_eq!(draws.used(), refr.used(), "one rand(num_sounds) consumed first; nothing else drew");
    assert_eq!(draws.used(), 1);
    assert_eq!(p.nobjects.len(), 0, "no dirt (bg level) -> no debris");
}

#[test]
fn worm_outside_box_is_untouched_and_draws_nothing() {
    let ty = small_explosion(-1);
    let mut level = bg_level(100, 100);
    let mut worms = vec![worm_at(59, 50, 100)];
    let raw = tape(16);
    let (_, draws) = explode(&ty, 50, 50, 1, &mut worms, &mut level, &no_sprites(), &[], 100, &raw);
    assert_eq!(worms[0].vel, Vec2::zero(), "out-of-range worm not nudged");
    assert_eq!(draws.used(), 1, "out-of-range worm draws no rand (box test false)");
}

#[test]
fn worm_inside_box_is_nudged_but_dead_worm_draws_no_rand() {
    let ty = small_explosion(-1);
    let mut level = bg_level(100, 100);
    let mut worms = vec![worm_at(57, 50, 0)];
    let raw = tape(16);
    let (p, draws) = explode(&ty, 50, 50, 1, &mut worms, &mut level, &no_sprites(), &[], 100, &raw);
    assert_eq!(worms[0].vel.x, 3000, "in-box worm gets x blow-away nudge");
    assert_eq!(worms[0].vel.y, -(3000 * 8), "in-box worm gets y blow-away nudge (delta 0 -> minus branch)");
    assert_eq!(worms[0].health, 0, "dead worm takes no damage");
    assert_eq!(draws.used(), 1, "dead in-box worm: damage arm skipped, no extra rand");
    assert_eq!(p.nobjects.len(), 0);
}

#[test]
fn worm_inside_box_wounded_sprays_blood_with_exact_draw_order() {
    let ty = small_explosion(-1);
    let mut level = bg_level(100, 100);
    let mut worms = vec![worm_at(57, 50, 100)];
    let raw = tape(64);
    let expected_blood = 4;
    // Reference replay: the sound, then per blood particle its angle, speed and
    // two spread draws, then the hit-sound gate and, on 0, the sound pick.
    let mut refr = Draws::new(raw.clone());
    refr.bound(2);
    let mut expected_vel = Vec::new();
    let table = cossin();
    let base = Vec2::new(3000, -24000).div(3);
    for _ in 0..expected_blood {
        let angle = refr.bound(128);
        let speed = refr.bound(40);
        let dx = refr.bound(40000);
        let dy = refr.bound(40000);
        let v = table[angle as usize].mul(100 - speed as i32).div(100).add(base);
        expected_vel.push(Vec2::new(v.x + dx as i32 - 20000, v.y + dy as i32 - 20000));
    }
    if refr.bound(3) == 0 {
        refr.bound(3);
    }
    let (p, draws) = explode(&ty, 50, 50, 1, &mut worms, &mut level, &no_sprites(), &[], 100, &raw);
    assert_eq!(worms[0].health, 98, "health reduced by z = 2 (wound)");
    assert!(worms[0].health > 0, "worm wounded, not killed");
    assert_eq!(worms[0].last_killed_by_idx, -1, "wound (health > 0) does NOT set last_killed_by_idx");
    assert_eq!(worms[0].vel, Vec2::new(3000, -24000), "vel = post blow-away nudge");
    assert_eq!(p.nobjects.len(), expected_blood, "kBloodAmount = blood * power_sum / 100 = 4 blood nobjects");
    for k in 0..expected_blood {
        let b = *p.nobjects.get(k).expect("blood nobject in slot");
        assert_eq!(b.ty, Some(6), "blood nobject {k} is nobject_types[6]");
        assert_eq!(b.owner_idx, 0, "blood nobject {k} owned by w.index");
        assert_eq!(b.vel, expected_vel[k], "blood nobject {k} launched with its replayed draws");
    }
    assert_eq!(draws.used(), refr.used(), "blood-spray + hit-sound RNG order/count matches the reference stream");
}

#[test]
fn worm_outside_box_takes_no_damage_and_sprays_no_blood() {
    let ty = small_explosion(-1);
    let mut level = bg_level(100, 100);
    let mut worms = vec![worm_at(59, 50, 100)];
    let raw = tape(16);
    let (p, draws) = explode(&ty, 50, 50, 1, &mut worms, &mut level, &no_sprites(), &[], 100, &raw);
    assert_eq!(worms[0].health, 100, "out-of-range worm takes no damage");
    assert_eq!(worms[0].vel, Vec2::zero(), "out-of-range worm not nudged");
    assert_eq!(p.nobjects.len(), 0, "out-of-range worm sprays no blood");
    assert_eq!(draws.used(), 1, "only the sound rand drawn");
}

#[test]
fn worm_inside_box_with_zero_blood_setting_draws_no_blood_but_still_gates_sound() {
    let ty = small_explosion(-1);
    let mut level = bg_level(100, 100);
    let mut worms = vec![worm_at(57, 50, 100)];
    let raw = tape(16);
    let mut refr = Draws::new(raw.clone());
    refr.bound(2);
    if refr.bound(3) == 0 {
        refr.bound(3);
    }
    let (p, draws) = explode(&ty, 50, 50, 1, &mut worms, &mut level, &no_sprites(), &[], 0, &raw);
    assert_eq!(worms[0].health, 98, "DoDamage still applied with blood = 0");
    assert_eq!(p.nobjects.len(), 0, "blood = 0 -> no blood nobjects");
    assert_eq!(draws.used(), refr.used(), "hit-sound gate drawn even when kBloodAmount == 0");
    assert!(draws.used() >= 2);
}

#[test]
fn dirt_throw_row_major_short_circuit_and_exact_draw_count() {
    let ty = small_explosion(-1);
    let (cx, cy) = (50, 50);
    let dirt_mat: u8 = 10;
    let mut level = chequered_dirt_level(cx, cy, 4, dirt_mat);
    let mut worms: Vec<WormState> = Vec::new();
    let raw = tape(400);
    // Reference replay: the sound, then row-major over the 9x9 box a draw
    // below 8 for the dirt cells only, and on a 0 the angle and the debris's
    // speed and two spread draws.
    let mut refr = Draws::new(raw.clone());
    refr.bound(2);
    let mut expected = Vec::new();
    for yy in (cy - 4)..(cy + 5) {
        for xx in (cx - 4)..(cx + 5) {
            if (xx + yy) % 2 == 0 && refr.bound(8) == 0 {
                refr.bound(128);
                refr.bound(40);
                refr.bound(20000);
                refr.bound(20000);
                expected.push((xx, yy));
            }
        }
    }
    let (p, draws) = explode(&ty, cx, cy, 3, &mut worms, &mut level, &no_sprites(), &[], 100, &raw);
    assert_eq!(
        draws.used(),
        refr.used(),
        "dirt-throw rand order/count: sound, then per dirt cell rand(8) [+ if 0: rand(128), rand(40), rand(20000)x2]"
    );
    assert!(!expected.is_empty(), "the tape must fire at least one cell");
    assert_eq!(p.nobjects.len(), expected.len(), "one dirt nobject spawned per fired cell");
    for (k, &(xx, yy)) in expected.iter().enumerate() {
        let deb = *p.nobjects.get(k).expect("debris in slot");
        assert_eq!(deb.cur_frame, dirt_mat as i32, "debris {k} cur_frame = kPix");
        assert_eq!(deb.ty, Some(2), "debris {k} is nobject_types[2]");
        assert_eq!(deb.owner_idx, 3, "debris {k} carries owner_idx");
        // Launched from its cell and moved one step at birth.
        assert_eq!(deb.pos, Vec2::new(itof(xx), itof(yy)).add(deb.vel), "debris {k} starts at its cell");
    }
}

#[test]
fn dirt_throw_skips_when_box_has_no_dirt() {
    let ty = small_explosion(-1);
    let mut level = bg_level(100, 100);
    let mut worms: Vec<WormState> = Vec::new();
    let raw = tape(16);
    let (p, draws) = explode(&ty, 50, 50, 1, &mut worms, &mut level, &no_sprites(), &[], 100, &raw);
    assert_eq!(draws.used(), 1, "no dirt -> no rand(8) drawn");
    assert_eq!(p.nobjects.len(), 0, "no debris");
}

#[test]
fn carve_runs_after_dirt_throw_and_is_the_last_cluster_draw() {
    let ty = small_explosion(2);
    let (cx, cy) = (40, 40);
    let dirt_mat: u8 = 10;
    let fill_mat: u8 = 7;
    let mut level = bg_level(80, 80);
    level.material_flags[dirt_mat as usize] = MAT_DIRT;
    level.material_flags[fill_mat as usize] = MAT_BACKGROUND;
    for yy in (cy - 7)..(cy + 9) {
        for xx in (cx - 7)..(cx + 9) {
            level.material_id[(yy * level.width + xx) as usize] = dirt_mat;
        }
    }
    let sprites = make_sprites(84, &[(38, vec![6u8; 256]), (82, vec![fill_mat; 256]), (83, vec![fill_mat; 256])]);
    let mut textures = vec![Texture { sframe: 0, rframe: 0, mframe: 0, ndrawback: false }; 3];
    textures[2] = Texture { sframe: 82, rframe: 2, mframe: 38, ndrawback: true };
    let mut worms: Vec<WormState> = Vec::new();
    let raw = tape(600);
    // Reference replay: the sound, the dirt throw over the all-dirt 9x9 box,
    // then the crater's fill draw below rframe 2, last.
    let mut refr = Draws::new(raw.clone());
    refr.bound(2);
    let mut fired = 0;
    for _yy in (cy - 4)..(cy + 5) {
        for _xx in (cx - 4)..(cx + 5) {
            if refr.bound(8) == 0 {
                refr.bound(128);
                refr.bound(40);
                refr.bound(20000);
                refr.bound(20000);
                fired += 1;
            }
        }
    }
    let fill = refr.bound(2);
    let (p, draws) = explode(&ty, cx, cy, 1, &mut worms, &mut level, &sprites, &textures, 100, &raw);
    assert_eq!(draws.used(), refr.used(), "carve rand(rframe) is the last cluster draw (carve AFTER dirt-throw)");
    assert!(fill < 2);
    assert!(fired > 0, "at least one cell fired");
    assert_eq!(p.nobjects.len(), fired, "one debris per fired cell");
    assert_eq!(
        level.material_id[(cy * level.width + cx) as usize],
        fill_mat,
        "carve cleared the box dirt to the fill (Background) material"
    );
    let no_dirt_left = !level
        .material_id
        .iter()
        .skip(((cy - 7) * level.width) as usize)
        .take((15 * level.width) as usize)
        .any(|&m| m == dirt_mat);
    assert!(no_dirt_left, "carve cleared every dirt cell in the window");
    for k in 0..p.nobjects.len() {
        assert_eq!(
            p.nobjects.get(k).unwrap().cur_frame,
            dirt_mat as i32,
            "debris {k} carries the PRE-CARVE kPix (now absent from the level)"
        );
    }
}
