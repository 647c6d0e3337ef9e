use sim::blit::{SpriteSet, Texture};
use sim::draws::Draws;
use sim::fixed::{itof, Vec2};
use sim::object_types::{NObjectType, SObjectType, Weapon};
use sim::pool::Pool;
use sim::state::{LevelSim, NObject, SObject, WObject, WormState, MAT_BACKGROUND, MAT_DIRT, MAT_ROCK};
use sim::weapon::process_wobjects;

fn flags() -> [u8; 256] {
    let mut material_flags = [0u8; 256];
    material_flags[0] = MAT_BACKGROUND;
    material_flags[1] = MAT_ROCK;
    material_flags[5] = MAT_DIRT;
    material_flags
}

/// A 64x64 level of background with rock from row `floor_y` down.
fn floor_level(floor_y: i32) -> LevelSim {
    let mut level = LevelSim { width: 64, height: 64, material_id: vec![0u8; 64 * 64], material_flags: flags() };
    for y in floor_y..64 {
        for x in 0..64 {
            level.material_id[(y * 64 + x) as usize] = 1;
        }
    }
    level
}

fn cossin() -> [Vec2; 128] {
    [Vec2::zero(); 128]
}

fn nobject_types() -> Vec<NObjectType> {
    let mut nts = Vec::new();
    for id in 0..7 {
        nts.push(NObjectType { id, ..Default::default() });
    }
    nts
}

fn small_explosion() -> SObjectType {
    SObjectType {
        id: 2,
        start_sound: 0,
        num_sounds: 2,
        anim_delay: 2,
        start_frame: 0,
        num_frames: 5,
        detect_range: 8,
        damage: 5,
        blow_away: 3000,
        dirt_effect: 0,
        ..Default::default()
    }
}

fn crater_sprites() -> SpriteSet {
    let mut data = vec![10u8; 256];
    data.extend(vec![77u8; 256]);
    SpriteSet { width: 16, height: 16, count: 2, data }
}

fn textures() -> Vec<Texture> {
    vec![Texture { sframe: 1, rframe: 1, mframe: 0, ndrawback: false }]
}

/// Weapon 0 flies freely; weapon 1 explodes on the ground into explosion
/// type 0; weapon 2 is pushed by explosions; weapon 3 has a fuse.
fn weapons() -> Vec<Weapon> {
    vec![
        Weapon { id: 0, create_on_exp: -1, dirt_effect: -1, ..Default::default() },
        Weapon { id: 1, create_on_exp: 0, dirt_effect: -1, expl_ground: true, ..Default::default() },
        Weapon { id: 2, create_on_exp: -1, dirt_effect: -1, affect_by_explosions: true, ..Default::default() },
        Weapon { id: 3, create_on_exp: -1, dirt_effect: -1, time_to_explo: 5, ..Default::default() },
    ]
}

fn shot(ty: i32, px: i32, py: i32, vel: Vec2) -> WObject {
    WObject { pos: Vec2::new(itof(px), itof(py)), vel, cur_frame: 0, time_left: 0, ty: Some(ty), owner_idx: 0 }
}

struct World {
    level: LevelSim,
    worms: Vec<WormState>,
    wobjects: Pool<WObject>,
    nobjects: Pool<NObject>,
    sobjects: Pool<SObject>,
}

fn world(sobject_slots: usize) -> World {
    World {
        level: floor_level(40),
        worms: Vec::new(),
        wobjects: Pool::new(4),
        nobjects: Pool::new(16),
        sobjects: Pool::new(sobject_slots),
    }
}

fn walk(w: &mut World, draws: &mut Draws) -> Result<(), usize> {
    let table = cossin();
    process_wobjects(
        &mut w.wobjects, &mut w.level, &mut w.worms, &mut w.nobjects, &mut w.sobjects, &weapons(),
        &[small_explosion()], &nobject_types(), &table, &crater_sprites(), &textures(), 100, draws,
    )
}

#[test]
fn projectile_walk_moves_a_free_flyer_and_keeps_it() {
    let mut w = world(2);
    w.wobjects.spawn(shot(0, 10, 10, Vec2::new(itof(1), 0)));
    let mut draws = Draws::new(vec![5; 4]);
    assert_eq!(walk(&mut w, &mut draws), Ok(()));
    let o = *w.wobjects.get(0).expect("still live");
    assert_eq!(o.pos, Vec2::new(itof(11), itof(10)));
    assert_eq!(o.vel, Vec2::new(itof(1), 0));
    assert_eq!(draws.used(), 0);
}

#[test]
fn projectile_walk_explodes_a_shot_hitting_rock_and_frees_its_slot() {
    let mut w = world(2);
    w.wobjects.spawn(shot(1, 30, 38, Vec2::new(0, itof(1))));
    let mut draws = Draws::new(vec![9; 4]);
    assert_eq!(walk(&mut w, &mut draws), Ok(()));
    assert_eq!(w.wobjects.len(), 0, "the exploded shot is freed");
    assert_eq!(w.sobjects.len(), 1, "one explosion object");
    let s = *w.sobjects.get(0).expect("explosion in slot 0");
    assert_eq!((s.x, s.y, s.id), (22, 31, 2), "at the shot's new pixel (30, 39), less 8");
    assert_eq!(draws.used(), 2, "the explosion's sound and its crater fill");
}

#[test]
fn projectile_walk_stops_when_no_slot_is_left_for_the_explosion() {
    let mut w = world(1);
    w.sobjects.spawn(SObject { id: 2, x: 0, y: 0, cur_frame: 0, anim_delay: 3 });
    let start = shot(1, 30, 38, Vec2::new(0, itof(1)));
    w.wobjects.spawn(start);
    let mut draws = Draws::new(vec![9; 4]);
    assert_eq!(walk(&mut w, &mut draws), Err(0));
    assert_eq!(*w.wobjects.get(0).expect("untouched"), start);
    assert_eq!(w.sobjects.len(), 1);
    assert_eq!(draws.used(), 0);
}

#[test]
fn projectile_walk_blows_a_fused_shot_when_its_time_runs_out() {
    let mut w = world(2);
    w.wobjects.spawn(shot(3, 10, 10, Vec2::zero()));
    let mut draws = Draws::new(vec![9; 4]);
    assert_eq!(walk(&mut w, &mut draws), Ok(()));
    assert_eq!(w.wobjects.len(), 0, "time_left fell below zero");
    assert_eq!(w.sobjects.len(), 0, "the weapon creates no explosion object");
    assert_eq!(draws.used(), 0);
}

#[test]
fn projectile_walk_pushes_a_later_shot_before_moving_it() {
    let mut w = world(2);
    w.wobjects.spawn(shot(1, 30, 38, Vec2::new(0, itof(1))));
    w.wobjects.spawn(shot(2, 33, 36, Vec2::zero()));
    let mut draws = Draws::new(vec![9; 4]);
    assert_eq!(walk(&mut w, &mut draws), Ok(()));
    // The blast at (30, 39) with range 8 and a third of 3000 pushes the shot
    // at (33, 36) by 1000 * 5 on each axis, away from the centre.
    let o = *w.wobjects.get(1).expect("the pushed shot stays");
    assert_eq!(o.vel, Vec2::new(5000, -5000));
    assert_eq!(o.pos, Vec2::new(itof(33) + 5000, itof(36) - 5000));
    assert!(w.wobjects.get(0).is_none());
}
