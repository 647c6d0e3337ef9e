use sim::blit::{SpriteSet, Texture};
use sim::draws::Draws;
use sim::levelgen::{
    blit_stone, dig_tunnels, field_draws, generate_dirt_field, generate_dirt_pattern, new_level, scatter_stones,
    splat_large_sprites, splat_sprite, tunnel_walk,
};
use sim::state::{LevelSim, MAT_BACKGROUND, MAT_DIRT, MAT_ROCK};

#[test]
fn new_level_is_zero_filled_with_dims_and_flags() {
    let mut flags = [0u8; 256];
    flags[7] = MAT_ROCK;
    let level = new_level(5, 3, &flags);
    assert_eq!((level.width, level.height), (5, 3));
    assert_eq!(level.material_id, vec![0u8; 15]);
    assert_eq!(level.material_flags, flags);
}

#[test]
fn splat_blends_177_to_179_and_overwrites_everything_else() {
    let mut img = vec![150u8; 256];
    img[5] = 0;
    let mut level = new_level(16, 16, &[0u8; 256]);
    for (x, v) in [176u8, 177, 178, 179, 180, 55].iter().enumerate() {
        level.material_id[x] = *v;
    }
    splat_sprite(&mut level, &img, 0, 0);
    assert_eq!(&level.material_id[0..6], &[150, 163, 164, 164, 150, 55]);
    assert_eq!(level.material_id[16], 150, "(0,1) overwritten");
}

#[test]
fn splat_clips_with_break_and_continue_at_every_edge() {
    let img = vec![9u8; 256];
    let mut a = new_level(10, 6, &[0u8; 256]);
    splat_sprite(&mut a, &img, -8, -8);
    let at = |l: &LevelSim, x: i32, y: i32| l.material_id[(x + y * 10) as usize];
    assert_eq!(at(&a, 0, 0), 9);
    assert_eq!(at(&a, 7, 5), 9);
    assert_eq!(at(&a, 8, 5), 0, "x = kX + 16 is past the sprite");
    let mut b = new_level(10, 6, &[0u8; 256]);
    splat_sprite(&mut b, &img, 5, 3);
    assert_eq!(at(&b, 9, 5), 9);
    assert_eq!(at(&b, 4, 3), 0);
    assert_eq!(at(&b, 5, 2), 0);
}

#[test]
fn splat_uses_the_texel_under_each_pixel_row_major() {
    let mut img = vec![0u8; 256];
    img[2 * 16 + 3] = 40; // texel (3, 2)
    let mut level = new_level(20, 20, &[0u8; 256]);
    splat_sprite(&mut level, &img, 4, 6);
    assert_eq!(level.material_id[(7 + 8 * 20) as usize], 40);
    let painted = level.material_id.iter().filter(|&&v| v != 0).count();
    assert_eq!(painted, 1, "zero texels leave the level alone");
}

/// A fixed, reproducible stream of draws: `bound` values from a small
/// linear congruential sequence.
fn draw_stream(seed: u32) -> impl FnMut(u32) -> u32 {
    let mut state = seed;
    move |bound| {
        state = state.wrapping_mul(1_664_525).wrapping_add(1_013_904_223);
        ((state as u64 * bound as u64) >> 32) as u32
    }
}

#[test]
fn dirt_field_follows_level_cpp_12_26_draw_order() {
    let (w, h) = (9i32, 7i32);
    let mut next = draw_stream(7);
    // Column x = 0 below the corner, then row y = 0, then the interior row-major.
    let mut draws = Vec::new();
    for _ in 0..(h + w - 1) {
        draws.push(next(7));
    }
    for _ in 0..((w - 1) * (h - 1)) {
        draws.push(next(8));
    }
    let mut want = vec![0u8; (w * h) as usize];
    let at = |x: i32, y: i32| (x + y * w) as usize;
    let mut k = 0usize;
    want[0] = (draws[k] + 12) as u8;
    k += 1;
    for y in 1..h {
        want[at(0, y)] = ((draws[k] + 12 + want[at(0, y - 1)] as u32) >> 1) as u8;
        k += 1;
    }
    for x in 1..w {
        want[at(x, 0)] = ((draws[k] + 12 + want[at(x - 1, 0)] as u32) >> 1) as u8;
        k += 1;
    }
    for y in 1..h {
        for x in 1..w {
            let left = want[at(x - 1, y)] as u32;
            let up = want[at(x, y - 1)] as u32;
            want[at(x, y)] = ((left + up + draws[k] + 12) / 3) as u8;
            k += 1;
        }
    }
    assert_eq!(k, draws.len());

    let mut level = new_level(w, h, &[0u8; 256]);
    generate_dirt_field(&mut level, &draws);
    assert_eq!(level.material_id, want);
}

#[test]
fn dirt_field_draws_w_times_h_and_stays_in_12_to_18() {
    let (w, h) = (17i32, 9i32);
    let mut next = draw_stream(42);
    let mut draws = Vec::new();
    for _ in 0..(h + w - 1) {
        draws.push(next(7));
    }
    for _ in 0..((w - 1) * (h - 1)) {
        draws.push(next(8));
    }
    assert_eq!(draws.len(), 17 * 9);
    let mut level = new_level(w, h, &[0u8; 256]);
    generate_dirt_field(&mut level, &draws);
    assert!(level.material_id.iter().all(|&p| (12..=18).contains(&p)));
}

#[test]
fn dirt_field_extremes_hit_both_ends_of_the_shade_range() {
    let (w, h) = (4i32, 3i32);
    let mut level = new_level(w, h, &[0u8; 256]);
    generate_dirt_field(&mut level, &vec![0u32; 12]);
    assert!(level.material_id.iter().all(|&p| p == 12));
    let mut high = vec![6u32; 6];
    high.extend(vec![7u32; 6]);
    generate_dirt_field(&mut level, &high);
    assert!(level.material_id.iter().all(|&p| p == 18));
}

/// A bank of `count` 16x16 sprites, all zero except the `(frame, 256 bytes)` overrides.
fn bank(count: i32, overrides: &[(usize, Vec<u8>)]) -> SpriteSet {
    let mut data = vec![0u8; count as usize * 256];
    for (frame, bytes) in overrides {
        assert_eq!(bytes.len(), 256);
        data[frame * 256..frame * 256 + 256].copy_from_slice(bytes);
    }
    SpriteSet {
        width: 16,
        height: 16,
        count,
        data,
    }
}

#[test]
fn blit_stone_overwrites_nonzero_texels_and_clips_to_full_height() {
    let mut spr: Vec<u8> = (0..256).map(|i| 100u8.wrapping_add(i as u8)).collect();
    spr[1] = 0;
    let sprites = bank(4, &[(3, spr)]);
    let mut level = new_level(20, 10, &[0u8; 256]);
    level.material_id.iter_mut().for_each(|p| *p = 7);
    blit_stone(&mut level, &sprites, 3, 15, 5);
    let at = |x: i32, y: i32| level.material_id[(x + y * 20) as usize];
    assert_eq!(at(15, 5), 100, "texel (0,0)");
    assert_eq!(at(16, 5), 7, "zero texel is transparent");
    assert_eq!(
        at(19, 9),
        100 + 4 * 16 + 4,
        "bottom row IS written: clip is Rect(0,0,w,h)"
    );
    assert_eq!(at(14, 5), 7, "left of the window untouched");
}

#[test]
fn blit_stone_negative_origin_offsets_the_source_like_clip_image() {
    let spr: Vec<u8> = (0..256).map(|i| 1u8.wrapping_add(i as u8)).collect();
    let sprites = bank(1, &[(0, spr)]);
    let mut level = new_level(20, 10, &[0u8; 256]);
    blit_stone(&mut level, &sprites, 0, -3, -2);
    assert_eq!(level.material_id[0], 1 + 2 * 16 + 3, "(0,0) <- texel (3,2)");
    assert_eq!(
        level.material_id[12],
        1 + 2 * 16 + 15,
        "(12,0) <- texel (15,2)"
    );
    assert_eq!(
        level.material_id[13], 0,
        "(13,0) is outside the clipped window"
    );
}

/// `n` raw generator outputs from a small xorshift sequence.
fn raw_outputs(seed: u32, n: usize) -> Vec<u32> {
    let mut x = seed.wrapping_mul(2_654_435_761).wrapping_add(1);
    (0..n)
        .map(|_| {
            x ^= x << 13;
            x ^= x >> 17;
            x ^= x << 5;
            x
        })
        .collect()
}

/// A reader of raw outputs that draws below `n` the way a tape does.
struct Reference {
    raw: Vec<u32>,
    pos: usize,
}

impl Reference {
    fn new(raw: &[u32]) -> Self {
        Reference { raw: raw.to_vec(), pos: 0 }
    }
    fn bound(&mut self, n: u32) -> u32 {
        let v = self.raw[self.pos];
        self.pos += 1;
        ((v as u64 * n as u64) >> 32) as u32
    }
}

#[test]
fn splats_draw_one_count_plus_three_per_splat() {
    let sprites = bank(73, &[]);
    let mut level = new_level(40, 30, &[0u8; 256]);
    let raw = raw_outputs(5, 400);
    let mut draws = Draws::new(raw.clone());
    splat_large_sprites(&mut level, &sprites, &mut draws);
    let count = Reference::new(&raw).bound(100) as usize;
    assert_eq!(draws.used(), 1 + 3 * count);
    assert!(!draws.is_short());
}

#[test]
fn stones_draw_one_count_plus_three_per_stone_from_frames_56_to_59() {
    let solid = |v: u8| vec![v; 256];
    let sprites = bank(60, &[(56, solid(56)), (57, solid(57)), (58, solid(58)), (59, solid(59))]);
    let mut level = new_level(64, 48, &[0u8; 256]);
    let raw = raw_outputs(11, 100);
    let mut draws = Draws::new(raw.clone());
    scatter_stones(&mut level, &sprites, &mut draws);
    let count = Reference::new(&raw).bound(15) as usize;
    assert_eq!(draws.used(), 1 + 3 * count);
    assert!(level.material_id.iter().all(|&p| p == 0 || (56..=59).contains(&p)));
}

#[test]
fn stones_land_at_the_read_placements() {
    let sprites = bank(60, &[(57, vec![57u8; 256])]);
    let mut level = new_level(64, 48, &[0u8; 256]);
    // One stone: count 1, x draw 20 (pixel 12), y draw 30 (pixel 22), frame 56 + 1.
    let raw = |d: u64, n: u64| (((d << 32) + n - 1) / n) as u32;
    let mut draws = Draws::new(vec![raw(1, 15), raw(20, 64), raw(30, 48), raw(1, 4)]);
    scatter_stones(&mut level, &sprites, &mut draws);
    assert_eq!(draws.used(), 4);
    assert_eq!(level.material_id[(12 + 22 * 64) as usize], 57, "top-left of the stone");
    assert_eq!(level.material_id[(27 + 37 * 64) as usize], 57, "bottom-right of the stone");
    assert_eq!(level.material_id[(28 + 37 * 64) as usize], 0, "right of the stone");
    assert_eq!(level.material_id[(11 + 22 * 64) as usize], 0, "left of the stone");
}

#[test]
fn dirt_pattern_is_field_then_splats_then_stones() {
    let sprites = bank(73, &[(70, vec![200; 256]), (57, vec![30; 256])]);
    let raw = raw_outputs(3, 3000);
    let mut a = new_level(50, 40, &[0u8; 256]);
    let mut da = Draws::new(raw.clone());
    generate_dirt_pattern(&mut a, &sprites, &mut da);
    let mut b = new_level(50, 40, &[0u8; 256]);
    let mut db = Draws::new(raw);
    let field = field_draws(50, 40, &mut db);
    assert_eq!(field.len(), 50 * 40);
    generate_dirt_field(&mut b, &field);
    splat_large_sprites(&mut b, &sprites, &mut db);
    scatter_stones(&mut b, &sprites, &mut db);
    assert_eq!(a, b);
    assert_eq!(da.used(), db.used());
    assert!(!da.is_short());
}

#[test]
fn tunnel_walk_follows_level_cpp_108_135() {
    let (w, h) = (300, 200);
    let raw = raw_outputs(99, 20000);
    let mut draws = Draws::new(raw.clone());
    let got = tunnel_walk(w, h, 2, &mut draws);

    let mut r = Reference::new(&raw);
    let mut want = Vec::new();
    let count = r.bound(50) as i32 + 5;
    for _ in 0..count {
        let mut cx = r.bound(w as u32) as i32 - 8;
        let mut cy = r.bound(h as u32) as i32 - 8;
        let dx = r.bound(11) as i32 - 5;
        let dy = r.bound(5) as i32 - 2;
        let count2 = r.bound(12) as i32;
        for _ in 0..count2 {
            let count3 = r.bound(5) as i32;
            for _ in 0..count3 {
                cx += dx;
                cy += dy;
                let f = r.bound(2);
                want.push((cx, cy, f));
            }
            cx -= (count3 + 1) * dx;
            cy -= (count3 + 1) * dy;
            cx += r.bound(7) as i32 - 3;
            cy += r.bound(15) as i32 - 7;
        }
    }
    assert_eq!(got, want);
    assert_eq!(draws.used(), r.pos);
    assert!(!got.is_empty());
}

#[test]
fn dig_tunnels_draws_once_per_stamp_even_when_clipped() {
    let tex = Texture { mframe: 0, rframe: 2, sframe: 1, ndrawback: true };
    let textures = vec![tex, tex];
    let sprites = bank(3, &[]);
    let mut level = new_level(4, 4, &[0u8; 256]);
    let raw = raw_outputs(21, 20000);
    let mut draws = Draws::new(raw.clone());
    dig_tunnels(&mut level, &sprites, &textures, &mut draws);

    let mut walk = Draws::new(raw);
    let stamps = tunnel_walk(4, 4, 2, &mut walk);
    assert!(!stamps.is_empty());
    assert_eq!(draws.used(), walk.used(), "one fill draw per stamp, clipped or not");
}

#[test]
fn dig_tunnels_carves_texture_1_at_the_walked_top_left_positions() {
    let mut flags = [0u8; 256];
    flags[12] = MAT_DIRT;
    flags[1] = MAT_DIRT | MAT_BACKGROUND;
    let textures = vec![
        Texture { mframe: 0, rframe: 2, sframe: 2, ndrawback: true },
        Texture { mframe: 1, rframe: 2, sframe: 2, ndrawback: true },
    ];
    let sprites = bank(4, &[(1, vec![1u8; 256])]);
    let (w, h) = (64, 48);
    let mut level = new_level(w, h, &flags);
    level.material_id.iter_mut().for_each(|p| *p = 12);
    let raw = raw_outputs(8, 20000);
    let mut draws = Draws::new(raw.clone());
    dig_tunnels(&mut level, &sprites, &textures, &mut draws);

    let mut walk = Draws::new(raw);
    let stamps = tunnel_walk(w, h, 2, &mut walk);
    let mut want = vec![12u8; (w * h) as usize];
    for (x, y, _) in stamps {
        for my in y.max(0)..(y + 16).min(h - 1) {
            for mx in x.max(0)..(x + 16).min(w) {
                want[(mx + my * w) as usize] = 1;
            }
        }
    }
    assert_eq!(level.material_id, want);
}
