//! The deterministic state hash: a `h * 31 + word` fold over every hashed
//! field and an `h * 33 ^ byte` fold over the level material map, with every
//! signed field taken as its two's-complement `u32`. Field order, the empty
//! pool seed of 1 and the conditional weapon-id words are part of the contract.

use vstd::prelude::*;
use vstd::wrapping::u32_specs::{wrapping_add, wrapping_mul};
use crate::pool::live_values;
use crate::state::{BObject, Bonus, LevelSim, NObject, SObject, SimState, WObject, WormState, WormWeapon, NUM_WEAPONS};

verus! {

/// Number of players whose per-worm component hash is reported.
pub const NUM_PLAYERS: usize = 2;

/// Per-subsystem hashes, for diagnosing a desync.
#[derive(Clone, Copy, PartialEq, Eq, Debug, Default)]
pub struct ComponentHashes {
    pub rng: u32,
    pub level: u32,
    pub worms: [u32; NUM_PLAYERS],
    pub bobjects: u32,
    pub bonuses: u32,
    pub sobjects: u32,
    pub nobjects: u32,
    pub wobjects: u32,
}

// ---------------------------------------------------------------------------
// Folds
// ---------------------------------------------------------------------------

/// One step of the word fold: `h * 31 + v` modulo 2^32.
#[verifier::opaque]
pub open spec fn mix31(h: u32, v: u32) -> u32 {
    wrapping_add(wrapping_mul(h, 31), v)
}

/// The word fold of `s` from `h`.
pub open spec fn fold31(h: u32, s: Seq<u32>) -> u32
    decreases s.len(),
{
    if s.len() == 0 { h } else { mix31(fold31(h, s.drop_last()), s.last()) }
}

/// The byte fold of `s` from `h`: `h * 33 ^ byte` modulo 2^32.
pub open spec fn fold33(h: u32, s: Seq<u8>) -> u32
    decreases s.len(),
{
    if s.len() == 0 { h } else { mix33(fold33(h, s.drop_last()), s.last()) }
}

/// One step of the byte fold: `h * 33 ^ b` modulo 2^32.
#[verifier::opaque]
pub open spec fn mix33(h: u32, b: u8) -> u32 {
    wrapping_mul(h, 33) ^ (b as u32)
}

/// Folding a concatenation folds the parts in turn.
pub proof fn lemma_fold31_concat(h: u32, a: Seq<u32>, b: Seq<u32>)
    ensures
        fold31(h, a + b) == fold31(fold31(h, a), b),
    decreases b.len(),
{
    if b.len() == 0 {
        assert(a + b =~= a);
    } else {
        lemma_fold31_concat(h, a, b.drop_last());
        assert((a + b).drop_last() =~= a + b.drop_last());
    }
}

pub open spec fn b2u(b: bool) -> u32 {
    if b { 1 } else { 0 }
}

// ---------------------------------------------------------------------------
// Hashed words
// ---------------------------------------------------------------------------

/// A weapon slot's words: ammo, fire delay, loading countdown, then the weapon
/// id only when the slot holds a weapon.
pub open spec fn weapon_words(w: WormWeapon) -> Seq<u32> {
    let base = Seq::<u32>::empty().push(w.ammo as u32).push(w.delay_left as u32).push(w.loading_left as u32);
    match w.ty {
        Some(id) => base.push(id as u32),
        None => base,
    }
}

/// A worm's words in the master hash.
pub open spec fn worm_words(w: WormState) -> Seq<u32> {
    (worm_head_words(w) + weapons_prefix(w.weapons@, 5))
        .push(b2u(w.ninjarope.out)).push(w.ninjarope.pos.x as u32).push(w.ninjarope.pos.y as u32)
}

/// A worm's scalar words: position, velocity, aim, health, lives, kills, timer,
/// visibility and control word.
pub open spec fn worm_head_words(w: WormState) -> Seq<u32> {
    Seq::<u32>::empty()
        .push(w.pos.x as u32).push(w.pos.y as u32).push(w.vel.x as u32).push(w.vel.y as u32)
        .push(w.aiming_angle as u32).push(w.health as u32).push(w.lives as u32).push(w.kills as u32)
        .push(w.timer as u32).push(b2u(w.visible)).push(w.control_states.word())
}

/// The words of every worm, in order.
pub open spec fn worms_words(ws: Seq<WormState>) -> Seq<u32>
    decreases ws.len(),
{
    if ws.len() == 0 { Seq::empty() } else { worms_words(ws.drop_last()) + worm_words(ws.last()) }
}

/// The concatenated words of `f` applied to every element of `s`, in order.
pub open spec fn flat_words<T>(s: Seq<T>, f: spec_fn(T) -> Seq<u32>) -> Seq<u32>
    decreases s.len(),
{
    if s.len() == 0 { Seq::empty() } else { flat_words(s.drop_last(), f) + f(s.last()) }
}

/// A blood particle's words: its position.
pub open spec fn bobject_words(b: BObject) -> Seq<u32> {
    Seq::<u32>::empty().push(b.pos.x as u32).push(b.pos.y as u32)
}

/// A bonus's words in the master hash: position, timer, weapon, frame.
pub open spec fn bonus_words(b: Bonus) -> Seq<u32> {
    Seq::<u32>::empty().push(b.x as u32).push(b.y as u32).push(b.timer as u32).push(b.weapon as u32)
        .push(b.frame as u32)
}

/// An explosion object's words: id and animation frame.
pub open spec fn sobject_words(s: SObject) -> Seq<u32> {
    Seq::<u32>::empty().push(s.id as u32).push(s.cur_frame as u32)
}

/// A non-weapon object's words in the master hash: position, velocity, frame,
/// then its type id only when it has one.
pub open spec fn nobject_words(n: NObject) -> Seq<u32> {
    let base = Seq::<u32>::empty().push(n.pos.x as u32).push(n.pos.y as u32).push(n.vel.x as u32)
        .push(n.vel.y as u32).push(n.cur_frame as u32);
    match n.ty {
        Some(id) => base.push(id as u32),
        None => base,
    }
}

/// A projectile's words in the master hash: position, velocity, frame, time
/// left, then its weapon id only when it has one.
pub open spec fn wobject_words(o: WObject) -> Seq<u32> {
    let base = Seq::<u32>::empty().push(o.pos.x as u32).push(o.pos.y as u32).push(o.vel.x as u32)
        .push(o.vel.y as u32).push(o.cur_frame as u32).push(o.time_left as u32);
    match o.ty {
        Some(id) => base.push(id as u32),
        None => base,
    }
}

/// The level's hashed bytes: the first `width * height` material ids.
pub open spec fn level_bytes(level: LevelSim) -> Seq<u8> {
    level.material_id@.take(level.width * level.height)
}

/// A worm's words in its component hash: position, velocity, health, lives,
/// visibility, timer.
pub open spec fn worm_component_words(w: WormState) -> Seq<u32> {
    Seq::<u32>::empty().push(w.pos.x as u32).push(w.pos.y as u32).push(w.vel.x as u32).push(w.vel.y as u32)
        .push(w.health as u32).push(w.lives as u32).push(b2u(w.visible)).push(w.timer as u32)
}

/// A bonus's words in the component hash: position, timer, weapon.
pub open spec fn bonus_component_words(b: Bonus) -> Seq<u32> {
    Seq::<u32>::empty().push(b.x as u32).push(b.y as u32).push(b.timer as u32).push(b.weapon as u32)
}

/// A non-weapon object's words in the component hash: its position.
pub open spec fn nobject_component_words(n: NObject) -> Seq<u32> {
    Seq::<u32>::empty().push(n.pos.x as u32).push(n.pos.y as u32)
}

/// A projectile's words in the component hash: its position.
pub open spec fn wobject_component_words(o: WObject) -> Seq<u32> {
    Seq::<u32>::empty().push(o.pos.x as u32).push(o.pos.y as u32)
}

/// The component hash of worm slot `i`: its component words folded from 1,
/// or 0 when there is no such worm.
pub open spec fn worm_component(state: SimState, i: int) -> u32 {
    if i < state.worms@.len() { fold31(1, worm_component_words(state.worms@[i])) } else { 0 }
}

/// The master hash of `state`: the RNG's last output and the tick count, the
/// level bytes, then every worm, blood particle, bonus, explosion object,
/// non-weapon object and projectile, the pools in slot order.
pub open spec fn spec_hash_game_state(state: SimState) -> u32 {
    let h0 = fold31(1, Seq::<u32>::empty().push(state.rng_last).push(state.cycles as u32));
    let h1 = fold33(h0, level_bytes(state.level));
    fold31(h1,
        worms_words(state.worms@)
        + flat_words(state.bobjects@, |b: BObject| bobject_words(b))
        + flat_words(live_values(state.bonuses@), |b: Bonus| bonus_words(b))
        + flat_words(live_values(state.sobjects@), |s: SObject| sobject_words(s))
        + flat_words(live_values(state.nobjects@), |n: NObject| nobject_words(n))
        + flat_words(live_values(state.wobjects@), |o: WObject| wobject_words(o)))
}

/// The master hash reads the pools only through their live objects in slot
/// order, the level only through its bytes, and neither the constants, the
/// game mode nor the level's flag table: two states that agree on those hash
/// alike.
pub proof fn lemma_hash_sees_only_live_objects(a: SimState, b: SimState)
    requires
        a.rng_last == b.rng_last,
        a.cycles == b.cycles,
        level_bytes(a.level) == level_bytes(b.level),
        a.worms@ == b.worms@,
        a.bobjects@ == b.bobjects@,
        live_values(a.bonuses@) == live_values(b.bonuses@),
        live_values(a.sobjects@) == live_values(b.sobjects@),
        live_values(a.nobjects@) == live_values(b.nobjects@),
        live_values(a.wobjects@) == live_values(b.wobjects@),
    ensures
        spec_hash_game_state(a) == spec_hash_game_state(b),
{
}

/// Two weapon slots agree on what the master hash reads of a slot.
pub open spec fn weapon_hash_alike(a: WormWeapon, b: WormWeapon) -> bool {
    a.ammo == b.ammo && a.delay_left == b.delay_left && a.loading_left == b.loading_left && a.ty == b.ty
}

/// Two worms agree on what the master hash reads of a worm: position,
/// velocity, aim, health, lives, kills, timer, visibility, control word, the
/// hashed fields of every weapon slot, and the ninjarope's state and position.
pub open spec fn worm_hash_alike(a: WormState, b: WormState) -> bool {
    &&& a.pos == b.pos
    &&& a.vel == b.vel
    &&& a.aiming_angle == b.aiming_angle
    &&& a.health == b.health
    &&& a.lives == b.lives
    &&& a.kills == b.kills
    &&& a.timer == b.timer
    &&& a.visible == b.visible
    &&& a.control_states.word() == b.control_states.word()
    &&& forall|k: int| 0 <= k < NUM_WEAPONS ==> #[trigger] weapon_hash_alike(a.weapons@[k], b.weapons@[k])
    &&& a.ninjarope.out == b.ninjarope.out
    &&& a.ninjarope.pos == b.ninjarope.pos
}

/// Two bonuses agree on position, timer, weapon and frame.
pub open spec fn bonus_hash_alike(a: Bonus, b: Bonus) -> bool {
    a.x == b.x && a.y == b.y && a.timer == b.timer && a.weapon == b.weapon && a.frame == b.frame
}

/// Two explosion objects agree on id and frame.
pub open spec fn sobject_hash_alike(a: SObject, b: SObject) -> bool {
    a.id == b.id && a.cur_frame == b.cur_frame
}

/// Two non-weapon objects agree on position, velocity, frame and type.
pub open spec fn nobject_hash_alike(a: NObject, b: NObject) -> bool {
    a.pos == b.pos && a.vel == b.vel && a.cur_frame == b.cur_frame && a.ty == b.ty
}

/// Two projectiles agree on position, velocity, frame, time left and weapon.
pub open spec fn wobject_hash_alike(a: WObject, b: WObject) -> bool {
    a.pos == b.pos && a.vel == b.vel && a.cur_frame == b.cur_frame && a.time_left == b.time_left && a.ty == b.ty
}

/// `f` gives the same words for every pair of elements of `s` and `t` at the
/// same index, so the concatenations agree.
proof fn lemma_flat_words_pointwise<T>(s: Seq<T>, t: Seq<T>, f: spec_fn(T) -> Seq<u32>)
    requires
        s.len() == t.len(),
        forall|i: int| 0 <= i < s.len() ==> f(#[trigger] s[i]) == f(t[i]),
    ensures
        flat_words(s, f) == flat_words(t, f),
    decreases s.len(),
{
    if s.len() > 0 {
        let (s0, t0) = (s.drop_last(), t.drop_last());
        assert forall|i: int| 0 <= i < s0.len() implies f(#[trigger] s0[i]) == f(t0[i]) by {
            assert(s0[i] == s[i] && t0[i] == t[i]);
        }
        lemma_flat_words_pointwise(s0, t0, f);
        assert(f(s[s.len() - 1]) == f(t[t.len() - 1]));
    }
}

proof fn lemma_weapons_prefix_alike(a: Seq<WormWeapon>, b: Seq<WormWeapon>, k: int)
    requires
        0 <= k <= a.len(),
        k <= b.len(),
        forall|j: int| 0 <= j < k ==> #[trigger] weapon_hash_alike(a[j], b[j]),
    ensures
        weapons_prefix(a, k) == weapons_prefix(b, k),
    decreases k,
{
    if k > 0 {
        lemma_weapons_prefix_alike(a, b, k - 1);
        assert(weapon_hash_alike(a[k - 1], b[k - 1]));
        assert(weapon_words(a[k - 1]) == weapon_words(b[k - 1]));
    }
}

proof fn lemma_worms_words_alike(a: Seq<WormState>, b: Seq<WormState>)
    requires
        a.len() == b.len(),
        forall|i: int| 0 <= i < a.len() ==> #[trigger] worm_hash_alike(a[i], b[i]),
    ensures
        worms_words(a) == worms_words(b),
    decreases a.len(),
{
    if a.len() > 0 {
        let (a0, b0) = (a.drop_last(), b.drop_last());
        assert forall|i: int| 0 <= i < a0.len() implies #[trigger] worm_hash_alike(a0[i], b0[i]) by {
            assert(a0[i] == a[i] && b0[i] == b[i]);
            assert(worm_hash_alike(a[i], b[i]));
        }
        lemma_worms_words_alike(a0, b0);
        let (x, y) = (a.last(), b.last());
        assert(worm_hash_alike(a[a.len() - 1], b[b.len() - 1]));
        assert forall|j: int| 0 <= j < NUM_WEAPONS implies #[trigger] weapon_hash_alike(x.weapons@[j], y.weapons@[j]) by {}
        lemma_weapons_prefix_alike(x.weapons@, y.weapons@, NUM_WEAPONS as int);
        assert(worm_head_words(x) == worm_head_words(y));
        assert(worm_words(x) == worm_words(y));
    }
}

/// The projectile component hash folds each live projectile's x and then its
/// y position into the running hash, `h * 31 + v` modulo 2^32 each: appending
/// projectile `o` to the live projectiles `s` turns the component hash `h` of
/// `s` into `(h * 31 + o.pos.x) * 31 + o.pos.y`; with no projectile it is 1.
pub proof fn law_wobject_component_folds_x_then_y(s: Seq<WObject>, o: WObject)
    ensures
        fold31(1, flat_words(Seq::<WObject>::empty(), |o: WObject| wobject_component_words(o))) == 1,
        ({
            let h = fold31(1, flat_words(s, |o: WObject| wobject_component_words(o)));
            fold31(1, flat_words(s.push(o), |o: WObject| wobject_component_words(o)))
                == wrapping_add(wrapping_mul(wrapping_add(wrapping_mul(h, 31), o.pos.x as u32), 31), o.pos.y as u32)
        }),
{
    let f = |o: WObject| wobject_component_words(o);
    let a = flat_words(s, f);
    let b = f(o);
    assert(flat_words(s.push(o), f) == a + b) by {
        assert(s.push(o).drop_last() =~= s);
    }
    lemma_fold31_concat(1, a, b);
    lemma_fold31_two(fold31(1, a), o.pos.x as u32, o.pos.y as u32);
}

/// Folding two words is two mixing steps.
proof fn lemma_fold31_two(h: u32, x: u32, y: u32)
    ensures
        fold31(h, Seq::<u32>::empty().push(x).push(y))
            == wrapping_add(wrapping_mul(wrapping_add(wrapping_mul(h, 31), x), 31), y),
{
    reveal(mix31);
    let e = Seq::<u32>::empty();
    assert(e.push(x).push(y).drop_last() =~= e.push(x));
    assert(e.push(x).drop_last() =~= e);
    assert(fold31(h, e) == h);
    assert(e.push(x).last() == x);
    assert(e.push(x).push(y).last() == y);
    assert(fold31(h, e.push(x)) == mix31(h, x));
    assert(fold31(h, e.push(x).push(y)) == mix31(mix31(h, x), y));
}

/// Appending an element to a folded sequence folds its words last.
proof fn lemma_fold_flat_push<T>(s: Seq<T>, o: T, f: spec_fn(T) -> Seq<u32>)
    ensures
        fold31(1, flat_words(s.push(o), f)) == fold31(fold31(1, flat_words(s, f)), f(o)),
{
    assert(flat_words(s.push(o), f) == flat_words(s, f) + f(o)) by {
        assert(s.push(o).drop_last() =~= s);
    }
    lemma_fold31_concat(1, flat_words(s, f), f(o));
}

/// The non-weapon object component hash folds each live object's x and then
/// its y position: appending `o` turns the hash `h` into
/// `(h * 31 + o.pos.x) * 31 + o.pos.y` modulo 2^32.
pub proof fn law_nobject_component_folds_x_then_y(s: Seq<NObject>, o: NObject)
    ensures
        ({
            let h = fold31(1, flat_words(s, |n: NObject| nobject_component_words(n)));
            fold31(1, flat_words(s.push(o), |n: NObject| nobject_component_words(n)))
                == wrapping_add(wrapping_mul(wrapping_add(wrapping_mul(h, 31), o.pos.x as u32), 31), o.pos.y as u32)
        }),
{
    let f = |n: NObject| nobject_component_words(n);
    lemma_fold_flat_push(s, o, f);
    lemma_fold31_two(fold31(1, flat_words(s, f)), o.pos.x as u32, o.pos.y as u32);
}

/// The blood hash folds each particle's x and then its y position.
pub proof fn law_bobject_hash_folds_x_then_y(s: Seq<BObject>, o: BObject)
    ensures
        ({
            let h = fold31(1, flat_words(s, |b: BObject| bobject_words(b)));
            fold31(1, flat_words(s.push(o), |b: BObject| bobject_words(b)))
                == wrapping_add(wrapping_mul(wrapping_add(wrapping_mul(h, 31), o.pos.x as u32), 31), o.pos.y as u32)
        }),
{
    let f = |b: BObject| bobject_words(b);
    lemma_fold_flat_push(s, o, f);
    lemma_fold31_two(fold31(1, flat_words(s, f)), o.pos.x as u32, o.pos.y as u32);
}

/// The explosion-object hash folds each live object's id and then its frame.
pub proof fn law_sobject_hash_folds_id_then_frame(s: Seq<SObject>, o: SObject)
    ensures
        ({
            let h = fold31(1, flat_words(s, |x: SObject| sobject_words(x)));
            fold31(1, flat_words(s.push(o), |x: SObject| sobject_words(x)))
                == wrapping_add(wrapping_mul(wrapping_add(wrapping_mul(h, 31), o.id as u32), 31), o.cur_frame as u32)
        }),
{
    let f = |x: SObject| sobject_words(x);
    lemma_fold_flat_push(s, o, f);
    lemma_fold31_two(fold31(1, flat_words(s, f)), o.id as u32, o.cur_frame as u32);
}

/// The bonus component hash folds each live bonus's x, y, timer and weapon,
/// in that order.
pub proof fn law_bonus_component_folds_fields(s: Seq<Bonus>, o: Bonus)
    ensures
        ({
            let h = fold31(1, flat_words(s, |b: Bonus| bonus_component_words(b)));
            let h2 = wrapping_add(wrapping_mul(wrapping_add(wrapping_mul(h, 31), o.x as u32), 31), o.y as u32);
            fold31(1, flat_words(s.push(o), |b: Bonus| bonus_component_words(b)))
                == wrapping_add(wrapping_mul(wrapping_add(wrapping_mul(h2, 31), o.timer as u32), 31), o.weapon as u32)
        }),
{
    let f = |b: Bonus| bonus_component_words(b);
    lemma_fold_flat_push(s, o, f);
    let h = fold31(1, flat_words(s, f));
    let e = Seq::<u32>::empty();
    let p = e.push(o.x as u32).push(o.y as u32);
    let q = e.push(o.timer as u32).push(o.weapon as u32);
    assert(f(o) =~= p + q);
    lemma_fold31_concat(h, p, q);
    lemma_fold31_two(h, o.x as u32, o.y as u32);
    lemma_fold31_two(fold31(h, p), o.timer as u32, o.weapon as u32);
}

/// A worm's component hash folds, from 1, its x and y position, x and y
/// velocity, health, lives, visibility (1 or 0) and timer, in that order; a
/// missing worm slot hashes to 0.
pub proof fn law_worm_component_fields(state: SimState, i: int)
    requires
        0 <= i,
    ensures
        i < state.worms@.len() ==> ({
            let w = state.worms@[i];
            worm_component(state, i) == fold31(1, seq![w.pos.x as u32, w.pos.y as u32, w.vel.x as u32,
                w.vel.y as u32, w.health as u32, w.lives as u32, if w.visible { 1u32 } else { 0u32 }, w.timer as u32])
        }),
        i >= state.worms@.len() ==> worm_component(state, i) == 0,
{
    if i < state.worms@.len() {
        let w = state.worms@[i];
        assert(worm_component_words(w) =~= seq![w.pos.x as u32, w.pos.y as u32, w.vel.x as u32,
            w.vel.y as u32, w.health as u32, w.lives as u32, if w.visible { 1u32 } else { 0u32 }, w.timer as u32]);
    }
}

/// The master hash reads only the hashed fields: two states that agree on the
/// generator's last output, the tick count, the level's size and material map,
/// the hashed fields of each worm in order, the positions of the blood
/// particles in order, and the hashed fields of the live objects of each pool
/// in slot order hash alike, whatever their other fields (owners, a bonus's
/// fall speed, animation delays, settings and tables, game mode, the level's
/// flag table).
pub proof fn lemma_hash_reads_only_hashed_fields(a: SimState, b: SimState)
    requires
        a.rng_last == b.rng_last,
        a.cycles == b.cycles,
        a.level.width == b.level.width,
        a.level.height == b.level.height,
        a.level.material_id@ == b.level.material_id@,
        a.worms@.len() == b.worms@.len(),
        forall|i: int| 0 <= i < a.worms@.len() ==> #[trigger] worm_hash_alike(a.worms@[i], b.worms@[i]),
        a.bobjects@.len() == b.bobjects@.len(),
        forall|i: int| 0 <= i < a.bobjects@.len() ==> (#[trigger] a.bobjects@[i]).pos == b.bobjects@[i].pos,
        live_values(a.bonuses@).len() == live_values(b.bonuses@).len(),
        forall|i: int| 0 <= i < live_values(a.bonuses@).len()
            ==> #[trigger] bonus_hash_alike(live_values(a.bonuses@)[i], live_values(b.bonuses@)[i]),
        live_values(a.sobjects@).len() == live_values(b.sobjects@).len(),
        forall|i: int| 0 <= i < live_values(a.sobjects@).len()
            ==> #[trigger] sobject_hash_alike(live_values(a.sobjects@)[i], live_values(b.sobjects@)[i]),
        live_values(a.nobjects@).len() == live_values(b.nobjects@).len(),
        forall|i: int| 0 <= i < live_values(a.nobjects@).len()
            ==> #[trigger] nobject_hash_alike(live_values(a.nobjects@)[i], live_values(b.nobjects@)[i]),
        live_values(a.wobjects@).len() == live_values(b.wobjects@).len(),
        forall|i: int| 0 <= i < live_values(a.wobjects@).len()
            ==> #[trigger] wobject_hash_alike(live_values(a.wobjects@)[i], live_values(b.wobjects@)[i]),
    ensures
        spec_hash_game_state(a) == spec_hash_game_state(b),
{
    assert(level_bytes(a.level) == level_bytes(b.level));
    lemma_worms_words_alike(a.worms@, b.worms@);
    let fb = |x: BObject| bobject_words(x);
    assert forall|i: int| 0 <= i < a.bobjects@.len() implies fb(#[trigger] a.bobjects@[i]) == fb(b.bobjects@[i]) by {
        assert(a.bobjects@[i].pos == b.bobjects@[i].pos);
    }
    lemma_flat_words_pointwise(a.bobjects@, b.bobjects@, fb);
    let (la, lb) = (live_values(a.bonuses@), live_values(b.bonuses@));
    let fo = |x: Bonus| bonus_words(x);
    assert forall|i: int| 0 <= i < la.len() implies fo(#[trigger] la[i]) == fo(lb[i]) by {
        assert(bonus_hash_alike(la[i], lb[i]));
    }
    lemma_flat_words_pointwise(la, lb, fo);
    let (sa, sb) = (live_values(a.sobjects@), live_values(b.sobjects@));
    let fs = |x: SObject| sobject_words(x);
    assert forall|i: int| 0 <= i < sa.len() implies fs(#[trigger] sa[i]) == fs(sb[i]) by {
        assert(sobject_hash_alike(sa[i], sb[i]));
    }
    lemma_flat_words_pointwise(sa, sb, fs);
    let (na, nb) = (live_values(a.nobjects@), live_values(b.nobjects@));
    let fnn = |x: NObject| nobject_words(x);
    assert forall|i: int| 0 <= i < na.len() implies fnn(#[trigger] na[i]) == fnn(nb[i]) by {
        assert(nobject_hash_alike(na[i], nb[i]));
    }
    lemma_flat_words_pointwise(na, nb, fnn);
    let (wa, wb) = (live_values(a.wobjects@), live_values(b.wobjects@));
    let fw = |x: WObject| wobject_words(x);
    assert forall|i: int| 0 <= i < wa.len() implies fw(#[trigger] wa[i]) == fw(wb[i]) by {
        assert(wobject_hash_alike(wa[i], wb[i]));
    }
    lemma_flat_words_pointwise(wa, wb, fw);
}

// ---------------------------------------------------------------------------
// Executable folds
// ---------------------------------------------------------------------------

fn mix(h: u32, v: u32) -> (r: u32)
    ensures
        r == mix31(h, v),
{
    proof {
        reveal(mix31);
    }
    h.wrapping_mul(31).wrapping_add(v)
}

/// Folds the level material map into `h`.
fn fold_level(h: u32, level: &LevelSim) -> (r: u32)
    requires
        level.wf(),
    ensures
        r == fold33(h, level_bytes(*level)),
{
    let count = (level.width as i64 * level.height as i64) as usize;
    assert(level_bytes(*level) =~= level.material_id@);
    let mut acc = h;
    let mut i: usize = 0;
    while i < count
        invariant
            level.wf(),
            count == level.material_id@.len(),
            i <= count,
            acc == fold33(h, level.material_id@.take(i as int)),
        decreases count - i,
    {
        assert(level.material_id@.take(i + 1).drop_last() =~= level.material_id@.take(i as int));
        proof {
            reveal(mix33);
        }
        acc = acc.wrapping_mul(33) ^ (level.material_id[i] as u32);
        i += 1;
    }
    assert(level.material_id@.take(count as int) =~= level.material_id@);
    acc
}

fn fold_weapon(h: u32, w: &WormWeapon) -> (r: u32)
    ensures
        r == fold31(h, weapon_words(*w)),
{
    let ghost e = Seq::<u32>::empty();
    let mut acc = mix(h, w.ammo as u32);
    proof { lemma_fold31_push(h, e, w.ammo as u32); }
    acc = mix(acc, w.delay_left as u32);
    proof { lemma_fold31_push(h, e.push(w.ammo as u32), w.delay_left as u32); }
    acc = mix(acc, w.loading_left as u32);
    let ghost base = e.push(w.ammo as u32).push(w.delay_left as u32).push(w.loading_left as u32);
    proof { lemma_fold31_push(h, e.push(w.ammo as u32).push(w.delay_left as u32), w.loading_left as u32); }
    match w.ty {
        Some(id) => {
            proof { lemma_fold31_push(h, base, id as u32); }
            mix(acc, id as u32)
        },
        None => acc,
    }
}

/// Folds the words of `s` into `h` one at a time.
proof fn lemma_fold31_push(h: u32, s: Seq<u32>, v: u32)
    ensures
        fold31(h, s.push(v)) == mix31(fold31(h, s), v),
{
    assert(s.push(v).drop_last() =~= s);
}

fn fold_worm_head(h: u32, w: &WormState) -> (r: u32)
    ensures
        r == fold31(h, worm_head_words(*w)),
{
    let ghost e = Seq::<u32>::empty();
    let ghost s1 = e.push(w.pos.x as u32);
    let ghost s2 = s1.push(w.pos.y as u32);
    let ghost s3 = s2.push(w.vel.x as u32);
    let ghost s4 = s3.push(w.vel.y as u32);
    let ghost s5 = s4.push(w.aiming_angle as u32);
    let ghost s6 = s5.push(w.health as u32);
    let ghost s7 = s6.push(w.lives as u32);
    let ghost s8 = s7.push(w.kills as u32);
    let ghost s9 = s8.push(w.timer as u32);
    let vis: u32 = if w.visible { 1 } else { 0 };
    let ghost s10 = s9.push(vis);
    let cw = w.control_states.pack();
    let mut acc = mix(h, w.pos.x as u32);
    proof { lemma_fold31_push(h, e, w.pos.x as u32); }
    acc = mix(acc, w.pos.y as u32);
    proof { lemma_fold31_push(h, s1, w.pos.y as u32); }
    acc = mix(acc, w.vel.x as u32);
    proof { lemma_fold31_push(h, s2, w.vel.x as u32); }
    acc = mix(acc, w.vel.y as u32);
    proof { lemma_fold31_push(h, s3, w.vel.y as u32); }
    acc = mix(acc, w.aiming_angle as u32);
    proof { lemma_fold31_push(h, s4, w.aiming_angle as u32); }
    acc = mix(acc, w.health as u32);
    proof { lemma_fold31_push(h, s5, w.health as u32); }
    acc = mix(acc, w.lives as u32);
    proof { lemma_fold31_push(h, s6, w.lives as u32); }
    acc = mix(acc, w.kills as u32);
    proof { lemma_fold31_push(h, s7, w.kills as u32); }
    acc = mix(acc, w.timer as u32);
    proof { lemma_fold31_push(h, s8, w.timer as u32); }
    acc = mix(acc, vis);
    proof { lemma_fold31_push(h, s9, vis); }
    acc = mix(acc, cw);
    proof { lemma_fold31_push(h, s10, cw); }
    acc
}

fn fold_worm(h: u32, w: &WormState) -> (r: u32)
    ensures
        r == fold31(h, worm_words(*w)),
{
    let ghost head = worm_head_words(*w);
    let mut acc = fold_worm_head(h, w);
    assert(head + weapons_prefix(w.weapons@, 0) =~= head);
    let mut k: usize = 0;
    while k < 5
        invariant
            k <= 5,
            head == worm_head_words(*w),
            acc == fold31(h, head + weapons_prefix(w.weapons@, k as int)),
        decreases 5 - k,
    {
        let ghost pre = head + weapons_prefix(w.weapons@, k as int);
        acc = fold_weapon(acc, &w.weapons[k]);
        proof {
            lemma_fold31_concat(h, pre, weapon_words(w.weapons@[k as int]));
            assert(head + weapons_prefix(w.weapons@, k + 1) =~= pre + weapon_words(w.weapons@[k as int]));
        }
        k += 1;
    }
    let ghost mid = head + weapons_prefix(w.weapons@, 5);
    let rope_out: u32 = if w.ninjarope.out { 1 } else { 0 };
    acc = mix(acc, rope_out);
    proof { lemma_fold31_push(h, mid, rope_out); }
    acc = mix(acc, w.ninjarope.pos.x as u32);
    proof { lemma_fold31_push(h, mid.push(rope_out), w.ninjarope.pos.x as u32); }
    acc = mix(acc, w.ninjarope.pos.y as u32);
    proof { lemma_fold31_push(h, mid.push(rope_out).push(w.ninjarope.pos.x as u32), w.ninjarope.pos.y as u32); }
    acc
}

/// The words of the first `k` weapon slots of `ws`.
pub open spec fn weapons_prefix(ws: Seq<WormWeapon>, k: int) -> Seq<u32>
    decreases k,
{
    if k <= 0 { Seq::empty() } else { weapons_prefix(ws, k - 1) + weapon_words(ws[k - 1]) }
}

fn fold_bobject(h: u32, x: &BObject) -> (r: u32)
    ensures
        r == fold31(h, bobject_words(*x)),
{
    let ghost e = Seq::<u32>::empty();
    let mut acc = h;
    proof { lemma_fold31_push(h, e, x.pos.x as u32); }
    acc = mix(acc, x.pos.x as u32);
    let ghost s0 = e.push(x.pos.x as u32);
    proof { lemma_fold31_push(h, s0, x.pos.y as u32); }
    acc = mix(acc, x.pos.y as u32);
    let ghost s1 = s0.push(x.pos.y as u32);
    acc
}

fn fold_bonus(h: u32, x: &Bonus) -> (r: u32)
    ensures
        r == fold31(h, bonus_words(*x)),
{
    let ghost e = Seq::<u32>::empty();
    let mut acc = h;
    proof { lemma_fold31_push(h, e, x.x as u32); }
    acc = mix(acc, x.x as u32);
    let ghost s0 = e.push(x.x as u32);
    proof { lemma_fold31_push(h, s0, x.y as u32); }
    acc = mix(acc, x.y as u32);
    let ghost s1 = s0.push(x.y as u32);
    proof { lemma_fold31_push(h, s1, x.timer as u32); }
    acc = mix(acc, x.timer as u32);
    let ghost s2 = s1.push(x.timer as u32);
    proof { lemma_fold31_push(h, s2, x.weapon as u32); }
    acc = mix(acc, x.weapon as u32);
    let ghost s3 = s2.push(x.weapon as u32);
    proof { lemma_fold31_push(h, s3, x.frame as u32); }
    acc = mix(acc, x.frame as u32);
    let ghost s4 = s3.push(x.frame as u32);
    acc
}

fn fold_sobject(h: u32, x: &SObject) -> (r: u32)
    ensures
        r == fold31(h, sobject_words(*x)),
{
    let ghost e = Seq::<u32>::empty();
    let mut acc = h;
    proof { lemma_fold31_push(h, e, x.id as u32); }
    acc = mix(acc, x.id as u32);
    let ghost s0 = e.push(x.id as u32);
    proof { lemma_fold31_push(h, s0, x.cur_frame as u32); }
    acc = mix(acc, x.cur_frame as u32);
    let ghost s1 = s0.push(x.cur_frame as u32);
    acc
}

fn fold_nobject(h: u32, x: &NObject) -> (r: u32)
    ensures
        r == fold31(h, nobject_words(*x)),
{
    let ghost e = Seq::<u32>::empty();
    let mut acc = h;
    proof { lemma_fold31_push(h, e, x.pos.x as u32); }
    acc = mix(acc, x.pos.x as u32);
    let ghost s0 = e.push(x.pos.x as u32);
    proof { lemma_fold31_push(h, s0, x.pos.y as u32); }
    acc = mix(acc, x.pos.y as u32);
    let ghost s1 = s0.push(x.pos.y as u32);
    proof { lemma_fold31_push(h, s1, x.vel.x as u32); }
    acc = mix(acc, x.vel.x as u32);
    let ghost s2 = s1.push(x.vel.x as u32);
    proof { lemma_fold31_push(h, s2, x.vel.y as u32); }
    acc = mix(acc, x.vel.y as u32);
    let ghost s3 = s2.push(x.vel.y as u32);
    proof { lemma_fold31_push(h, s3, x.cur_frame as u32); }
    acc = mix(acc, x.cur_frame as u32);
    let ghost s4 = s3.push(x.cur_frame as u32);
    match x.ty {
        Some(id) => {
            proof { lemma_fold31_push(h, s4, id as u32); }
            mix(acc, id as u32)
        },
        None => acc,
    }
}

fn fold_wobject(h: u32, x: &WObject) -> (r: u32)
    ensures
        r == fold31(h, wobject_words(*x)),
{
    let ghost e = Seq::<u32>::empty();
    let mut acc = h;
    proof { lemma_fold31_push(h, e, x.pos.x as u32); }
    acc = mix(acc, x.pos.x as u32);
    let ghost s0 = e.push(x.pos.x as u32);
    proof { lemma_fold31_push(h, s0, x.pos.y as u32); }
    acc = mix(acc, x.pos.y as u32);
    let ghost s1 = s0.push(x.pos.y as u32);
    proof { lemma_fold31_push(h, s1, x.vel.x as u32); }
    acc = mix(acc, x.vel.x as u32);
    let ghost s2 = s1.push(x.vel.x as u32);
    proof { lemma_fold31_push(h, s2, x.vel.y as u32); }
    acc = mix(acc, x.vel.y as u32);
    let ghost s3 = s2.push(x.vel.y as u32);
    proof { lemma_fold31_push(h, s3, x.cur_frame as u32); }
    acc = mix(acc, x.cur_frame as u32);
    let ghost s4 = s3.push(x.cur_frame as u32);
    proof { lemma_fold31_push(h, s4, x.time_left as u32); }
    acc = mix(acc, x.time_left as u32);
    let ghost s5 = s4.push(x.time_left as u32);
    match x.ty {
        Some(id) => {
            proof { lemma_fold31_push(h, s5, id as u32); }
            mix(acc, id as u32)
        },
        None => acc,
    }
}

fn fold_bobject_list(h: u32, v: &Vec<&BObject>, live: Ghost<Seq<BObject>>) -> (r: u32)
    requires
        v@.len() == live@.len(),
        forall|k: int| 0 <= k < v@.len() ==> *#[trigger] v@[k] == live@[k],
    ensures
        r == fold31(h, flat_words(live@, |b: BObject| bobject_words(b))),
{
    let mut acc = h;
    let mut k: usize = 0;
    assert(live@.take(0) =~= Seq::<BObject>::empty());
    while k < v.len()
        invariant
            k <= v@.len(),
            v@.len() == live@.len(),
            forall|j: int| 0 <= j < v@.len() ==> *#[trigger] v@[j] == live@[j],
            acc == fold31(h, flat_words(live@.take(k as int), |b: BObject| bobject_words(b))),
        decreases v.len() - k,
    {
        let ghost pre = flat_words(live@.take(k as int), |b: BObject| bobject_words(b));
        acc = fold_bobject(acc, v[k]);
        proof {
            lemma_fold31_concat(h, pre, bobject_words(live@[k as int]));
            assert(live@.take(k + 1).drop_last() =~= live@.take(k as int));
        }
        k += 1;
    }
    assert(live@.take(v@.len() as int) =~= live@);
    acc
}

fn fold_bonus_list(h: u32, v: &Vec<&Bonus>, live: Ghost<Seq<Bonus>>) -> (r: u32)
    requires
        v@.len() == live@.len(),
        forall|k: int| 0 <= k < v@.len() ==> *#[trigger] v@[k] == live@[k],
    ensures
        r == fold31(h, flat_words(live@, |b: Bonus| bonus_words(b))),
{
    let mut acc = h;
    let mut k: usize = 0;
    assert(live@.take(0) =~= Seq::<Bonus>::empty());
    while k < v.len()
        invariant
            k <= v@.len(),
            v@.len() == live@.len(),
            forall|j: int| 0 <= j < v@.len() ==> *#[trigger] v@[j] == live@[j],
            acc == fold31(h, flat_words(live@.take(k as int), |b: Bonus| bonus_words(b))),
        decreases v.len() - k,
    {
        let ghost pre = flat_words(live@.take(k as int), |b: Bonus| bonus_words(b));
        acc = fold_bonus(acc, v[k]);
        proof {
            lemma_fold31_concat(h, pre, bonus_words(live@[k as int]));
            assert(live@.take(k + 1).drop_last() =~= live@.take(k as int));
        }
        k += 1;
    }
    assert(live@.take(v@.len() as int) =~= live@);
    acc
}

fn fold_sobject_list(h: u32, v: &Vec<&SObject>, live: Ghost<Seq<SObject>>) -> (r: u32)
    requires
        v@.len() == live@.len(),
        forall|k: int| 0 <= k < v@.len() ==> *#[trigger] v@[k] == live@[k],
    ensures
        r == fold31(h, flat_words(live@, |s: SObject| sobject_words(s))),
{
    let mut acc = h;
    let mut k: usize = 0;
    assert(live@.take(0) =~= Seq::<SObject>::empty());
    while k < v.len()
        invariant
            k <= v@.len(),
            v@.len() == live@.len(),
            forall|j: int| 0 <= j < v@.len() ==> *#[trigger] v@[j] == live@[j],
            acc == fold31(h, flat_words(live@.take(k as int), |s: SObject| sobject_words(s))),
        decreases v.len() - k,
    {
        let ghost pre = flat_words(live@.take(k as int), |s: SObject| sobject_words(s));
        acc = fold_sobject(acc, v[k]);
        proof {
            lemma_fold31_concat(h, pre, sobject_words(live@[k as int]));
            assert(live@.take(k + 1).drop_last() =~= live@.take(k as int));
        }
        k += 1;
    }
    assert(live@.take(v@.len() as int) =~= live@);
    acc
}

fn fold_nobject_list(h: u32, v: &Vec<&NObject>, live: Ghost<Seq<NObject>>) -> (r: u32)
    requires
        v@.len() == live@.len(),
        forall|k: int| 0 <= k < v@.len() ==> *#[trigger] v@[k] == live@[k],
    ensures
        r == fold31(h, flat_words(live@, |n: NObject| nobject_words(n))),
{
    let mut acc = h;
    let mut k: usize = 0;
    assert(live@.take(0) =~= Seq::<NObject>::empty());
    while k < v.len()
        invariant
            k <= v@.len(),
            v@.len() == live@.len(),
            forall|j: int| 0 <= j < v@.len() ==> *#[trigger] v@[j] == live@[j],
            acc == fold31(h, flat_words(live@.take(k as int), |n: NObject| nobject_words(n))),
        decreases v.len() - k,
    {
        let ghost pre = flat_words(live@.take(k as int), |n: NObject| nobject_words(n));
        acc = fold_nobject(acc, v[k]);
        proof {
            lemma_fold31_concat(h, pre, nobject_words(live@[k as int]));
            assert(live@.take(k + 1).drop_last() =~= live@.take(k as int));
        }
        k += 1;
    }
    assert(live@.take(v@.len() as int) =~= live@);
    acc
}

fn fold_wobject_list(h: u32, v: &Vec<&WObject>, live: Ghost<Seq<WObject>>) -> (r: u32)
    requires
        v@.len() == live@.len(),
        forall|k: int| 0 <= k < v@.len() ==> *#[trigger] v@[k] == live@[k],
    ensures
        r == fold31(h, flat_words(live@, |o: WObject| wobject_words(o))),
{
    let mut acc = h;
    let mut k: usize = 0;
    assert(live@.take(0) =~= Seq::<WObject>::empty());
    while k < v.len()
        invariant
            k <= v@.len(),
            v@.len() == live@.len(),
            forall|j: int| 0 <= j < v@.len() ==> *#[trigger] v@[j] == live@[j],
            acc == fold31(h, flat_words(live@.take(k as int), |o: WObject| wobject_words(o))),
        decreases v.len() - k,
    {
        let ghost pre = flat_words(live@.take(k as int), |o: WObject| wobject_words(o));
        acc = fold_wobject(acc, v[k]);
        proof {
            lemma_fold31_concat(h, pre, wobject_words(live@[k as int]));
            assert(live@.take(k + 1).drop_last() =~= live@.take(k as int));
        }
        k += 1;
    }
    assert(live@.take(v@.len() as int) =~= live@);
    acc
}

/// The master hash of the whole state.
pub fn hash_game_state(state: &SimState) -> (r: u32)
    requires
        state.level.wf(),
    ensures
        r == spec_hash_game_state(*state),
{
    let ghost e = Seq::<u32>::empty();
    let mut h: u32 = mix(1, state.rng_last);
    proof { lemma_fold31_push(1, e, state.rng_last); }
    h = mix(h, state.cycles as u32);
    proof { lemma_fold31_push(1, e.push(state.rng_last), state.cycles as u32); }
    h = fold_level(h, &state.level);
    let ghost h1 = h;

    let mut i: usize = 0;
    assert(state.worms@.take(0) =~= Seq::<WormState>::empty());
    while i < state.worms.len()
        invariant
            i <= state.worms@.len(),
            h == fold31(h1, worms_words(state.worms@.take(i as int))),
        decreases state.worms.len() - i,
    {
        let ghost pre = worms_words(state.worms@.take(i as int));
        h = fold_worm(h, &state.worms[i]);
        proof {
            lemma_fold31_concat(h1, pre, worm_words(state.worms@[i as int]));
            assert(state.worms@.take(i + 1).drop_last() =~= state.worms@.take(i as int));
        }
        i += 1;
    }
    assert(state.worms@.take(state.worms@.len() as int) =~= state.worms@);
    let ghost ww = worms_words(state.worms@);

    let ghost bw = flat_words(state.bobjects@, |b: BObject| bobject_words(b));
    h = fold_bobject_list(h, &state.bobjects.iter(), Ghost(state.bobjects@));
    proof { lemma_fold31_concat(h1, ww, bw); }

    let ghost nw = flat_words(live_values(state.bonuses@), |b: Bonus| bonus_words(b));
    h = fold_bonus_list(h, &state.bonuses.iter(), Ghost(live_values(state.bonuses@)));
    proof { lemma_fold31_concat(h1, ww + bw, nw); }

    let ghost sw = flat_words(live_values(state.sobjects@), |s: SObject| sobject_words(s));
    h = fold_sobject_list(h, &state.sobjects.iter(), Ghost(live_values(state.sobjects@)));
    proof { lemma_fold31_concat(h1, ww + bw + nw, sw); }

    let ghost qw = flat_words(live_values(state.nobjects@), |n: NObject| nobject_words(n));
    h = fold_nobject_list(h, &state.nobjects.iter(), Ghost(live_values(state.nobjects@)));
    proof { lemma_fold31_concat(h1, ww + bw + nw + sw, qw); }

    let ghost pw = flat_words(live_values(state.wobjects@), |o: WObject| wobject_words(o));
    h = fold_wobject_list(h, &state.wobjects.iter(), Ghost(live_values(state.wobjects@)));
    proof { lemma_fold31_concat(h1, ww + bw + nw + sw + qw, pw); }
    h
}

fn fold_worm_component(h: u32, x: &WormState) -> (r: u32)
    ensures
        r == fold31(h, worm_component_words(*x)),
{
    let ghost e = Seq::<u32>::empty();
    let mut acc = h;
    proof { lemma_fold31_push(h, e, x.pos.x as u32); }
    acc = mix(acc, x.pos.x as u32);
    let ghost s0 = e.push(x.pos.x as u32);
    proof { lemma_fold31_push(h, s0, x.pos.y as u32); }
    acc = mix(acc, x.pos.y as u32);
    let ghost s1 = s0.push(x.pos.y as u32);
    proof { lemma_fold31_push(h, s1, x.vel.x as u32); }
    acc = mix(acc, x.vel.x as u32);
    let ghost s2 = s1.push(x.vel.x as u32);
    proof { lemma_fold31_push(h, s2, x.vel.y as u32); }
    acc = mix(acc, x.vel.y as u32);
    let ghost s3 = s2.push(x.vel.y as u32);
    proof { lemma_fold31_push(h, s3, x.health as u32); }
    acc = mix(acc, x.health as u32);
    let ghost s4 = s3.push(x.health as u32);
    proof { lemma_fold31_push(h, s4, x.lives as u32); }
    acc = mix(acc, x.lives as u32);
    let ghost s5 = s4.push(x.lives as u32);
    proof { lemma_fold31_push(h, s5, if x.visible { 1u32 } else { 0u32 }); }
    acc = mix(acc, if x.visible { 1u32 } else { 0u32 });
    let ghost s6 = s5.push(if x.visible { 1u32 } else { 0u32 });
    proof { lemma_fold31_push(h, s6, x.timer as u32); }
    acc = mix(acc, x.timer as u32);
    let ghost s7 = s6.push(x.timer as u32);
    acc
}

fn fold_bonus_component(h: u32, x: &Bonus) -> (r: u32)
    ensures
        r == fold31(h, bonus_component_words(*x)),
{
    let ghost e = Seq::<u32>::empty();
    let mut acc = h;
    proof { lemma_fold31_push(h, e, x.x as u32); }
    acc = mix(acc, x.x as u32);
    let ghost s0 = e.push(x.x as u32);
    proof { lemma_fold31_push(h, s0, x.y as u32); }
    acc = mix(acc, x.y as u32);
    let ghost s1 = s0.push(x.y as u32);
    proof { lemma_fold31_push(h, s1, x.timer as u32); }
    acc = mix(acc, x.timer as u32);
    let ghost s2 = s1.push(x.timer as u32);
    proof { lemma_fold31_push(h, s2, x.weapon as u32); }
    acc = mix(acc, x.weapon as u32);
    let ghost s3 = s2.push(x.weapon as u32);
    acc
}

fn fold_nobject_component(h: u32, x: &NObject) -> (r: u32)
    ensures
        r == fold31(h, nobject_component_words(*x)),
{
    let ghost e = Seq::<u32>::empty();
    let mut acc = h;
    proof { lemma_fold31_push(h, e, x.pos.x as u32); }
    acc = mix(acc, x.pos.x as u32);
    let ghost s0 = e.push(x.pos.x as u32);
    proof { lemma_fold31_push(h, s0, x.pos.y as u32); }
    acc = mix(acc, x.pos.y as u32);
    let ghost s1 = s0.push(x.pos.y as u32);
    acc
}

fn fold_wobject_component(h: u32, x: &WObject) -> (r: u32)
    ensures
        r == fold31(h, wobject_component_words(*x)),
{
    let ghost e = Seq::<u32>::empty();
    let mut acc = h;
    proof { lemma_fold31_push(h, e, x.pos.x as u32); }
    acc = mix(acc, x.pos.x as u32);
    let ghost s0 = e.push(x.pos.x as u32);
    proof { lemma_fold31_push(h, s0, x.pos.y as u32); }
    acc = mix(acc, x.pos.y as u32);
    let ghost s1 = s0.push(x.pos.y as u32);
    acc
}

fn fold_bonus_component_list(h: u32, v: &Vec<&Bonus>, live: Ghost<Seq<Bonus>>) -> (r: u32)
    requires
        v@.len() == live@.len(),
        forall|k: int| 0 <= k < v@.len() ==> *#[trigger] v@[k] == live@[k],
    ensures
        r == fold31(h, flat_words(live@, |b: Bonus| bonus_component_words(b))),
{
    let mut acc = h;
    let mut k: usize = 0;
    assert(live@.take(0) =~= Seq::<Bonus>::empty());
    while k < v.len()
        invariant
            k <= v@.len(),
            v@.len() == live@.len(),
            forall|j: int| 0 <= j < v@.len() ==> *#[trigger] v@[j] == live@[j],
            acc == fold31(h, flat_words(live@.take(k as int), |b: Bonus| bonus_component_words(b))),
        decreases v.len() - k,
    {
        let ghost pre = flat_words(live@.take(k as int), |b: Bonus| bonus_component_words(b));
        acc = fold_bonus_component(acc, v[k]);
        proof {
            lemma_fold31_concat(h, pre, bonus_component_words(live@[k as int]));
            assert(live@.take(k + 1).drop_last() =~= live@.take(k as int));
        }
        k += 1;
    }
    assert(live@.take(v@.len() as int) =~= live@);
    acc
}

fn fold_nobject_component_list(h: u32, v: &Vec<&NObject>, live: Ghost<Seq<NObject>>) -> (r: u32)
    requires
        v@.len() == live@.len(),
        forall|k: int| 0 <= k < v@.len() ==> *#[trigger] v@[k] == live@[k],
    ensures
        r == fold31(h, flat_words(live@, |n: NObject| nobject_component_words(n))),
{
    let mut acc = h;
    let mut k: usize = 0;
    assert(live@.take(0) =~= Seq::<NObject>::empty());
    while k < v.len()
        invariant
            k <= v@.len(),
            v@.len() == live@.len(),
            forall|j: int| 0 <= j < v@.len() ==> *#[trigger] v@[j] == live@[j],
            acc == fold31(h, flat_words(live@.take(k as int), |n: NObject| nobject_component_words(n))),
        decreases v.len() - k,
    {
        let ghost pre = flat_words(live@.take(k as int), |n: NObject| nobject_component_words(n));
        acc = fold_nobject_component(acc, v[k]);
        proof {
            lemma_fold31_concat(h, pre, nobject_component_words(live@[k as int]));
            assert(live@.take(k + 1).drop_last() =~= live@.take(k as int));
        }
        k += 1;
    }
    assert(live@.take(v@.len() as int) =~= live@);
    acc
}

fn fold_wobject_component_list(h: u32, v: &Vec<&WObject>, live: Ghost<Seq<WObject>>) -> (r: u32)
    requires
        v@.len() == live@.len(),
        forall|k: int| 0 <= k < v@.len() ==> *#[trigger] v@[k] == live@[k],
    ensures
        r == fold31(h, flat_words(live@, |o: WObject| wobject_component_words(o))),
{
    let mut acc = h;
    let mut k: usize = 0;
    assert(live@.take(0) =~= Seq::<WObject>::empty());
    while k < v.len()
        invariant
            k <= v@.len(),
            v@.len() == live@.len(),
            forall|j: int| 0 <= j < v@.len() ==> *#[trigger] v@[j] == live@[j],
            acc == fold31(h, flat_words(live@.take(k as int), |o: WObject| wobject_component_words(o))),
        decreases v.len() - k,
    {
        let ghost pre = flat_words(live@.take(k as int), |o: WObject| wobject_component_words(o));
        acc = fold_wobject_component(acc, v[k]);
        proof {
            lemma_fold31_concat(h, pre, wobject_component_words(live@[k as int]));
            assert(live@.take(k + 1).drop_last() =~= live@.take(k as int));
        }
        k += 1;
    }
    assert(live@.take(v@.len() as int) =~= live@);
    acc
}

/// The per-component hashes of the state: the RNG's last output, the level
/// bytes folded from 1, and each of the first two worms and each pool folded
/// from 1 over its component words (a missing worm hashes to 0).
pub fn hash_components(state: &SimState) -> (r: ComponentHashes)
    requires
        state.level.wf(),
    ensures
        r.rng == state.rng_last,
        r.level == fold33(1, level_bytes(state.level)),
        r.worms[0] == worm_component(*state, 0),
        r.worms[1] == worm_component(*state, 1),
        r.bobjects == fold31(1, flat_words(state.bobjects@, |b: BObject| bobject_words(b))),
        r.bonuses == fold31(1, flat_words(live_values(state.bonuses@), |b: Bonus| bonus_component_words(b))),
        r.sobjects == fold31(1, flat_words(live_values(state.sobjects@), |s: SObject| sobject_words(s))),
        r.nobjects == fold31(1, flat_words(live_values(state.nobjects@), |n: NObject| nobject_component_words(n))),
        r.wobjects == fold31(1, flat_words(live_values(state.wobjects@), |o: WObject| wobject_component_words(o))),
{
    let level = fold_level(1, &state.level);
    let mut worms: [u32; NUM_PLAYERS] = [0, 0];
    if state.worms.len() > 0 {
        worms[0] = fold_worm_component(1, &state.worms[0]);
    }
    if state.worms.len() > 1 {
        worms[1] = fold_worm_component(1, &state.worms[1]);
    }
    let bobjects = fold_bobject_list(1, &state.bobjects.iter(), Ghost(state.bobjects@));
    let bonuses = fold_bonus_component_list(1, &state.bonuses.iter(), Ghost(live_values(state.bonuses@)));
    let sobjects = fold_sobject_list(1, &state.sobjects.iter(), Ghost(live_values(state.sobjects@)));
    let nobjects = fold_nobject_component_list(1, &state.nobjects.iter(), Ghost(live_values(state.nobjects@)));
    let wobjects = fold_wobject_component_list(1, &state.wobjects.iter(), Ghost(live_values(state.wobjects@)));
    ComponentHashes {
        rng: state.rng_last,
        level,
        worms,
        bobjects,
        bonuses,
        sobjects,
        nobjects,
        wobjects,
    }
}

} // verus!
