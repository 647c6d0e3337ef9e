//! Fixed-capacity object pools.
//!
//! [`Pool`] keeps a live/free slot map: a spawn always takes the lowest free
//! slot and iteration walks live slots in index order. [`BloodPool`] keeps a
//! contiguous run of live objects: a spawn appends and a free swaps the last
//! live object into the freed slot. Both orders feed the deterministic state
//! hash, so the contracts below pin them exactly.

use vstd::prelude::*;

verus! {

// ---------------------------------------------------------------------------
// Models
// ---------------------------------------------------------------------------

/// Number of occupied slots in `s`.
pub open spec fn live_count<T>(s: Seq<Option<T>>) -> nat
    decreases s.len(),
{
    if s.len() == 0 {
        0
    } else {
        live_count(s.drop_last()) + if s.last() is Some { 1nat } else { 0nat }
    }
}

/// The values of the occupied slots of `s`, in slot order.
pub open spec fn live_values<T>(s: Seq<Option<T>>) -> Seq<T>
    decreases s.len(),
{
    if s.len() == 0 {
        Seq::empty()
    } else {
        let rest = live_values(s.drop_last());
        match s.last() {
            Some(v) => rest.push(v),
            None => rest,
        }
    }
}

/// `i` is the lowest free slot of `s`.
pub open spec fn is_lowest_free<T>(s: Seq<Option<T>>, i: int) -> bool {
    &&& 0 <= i < s.len()
    &&& s[i] is None
    &&& forall|j: int| 0 <= j < i ==> #[trigger] s[j] is Some
}

/// Every slot of `s` is occupied.
pub open spec fn all_live<T>(s: Seq<Option<T>>) -> bool {
    forall|j: int| 0 <= j < s.len() ==> #[trigger] s[j] is Some
}

/// The slot a reusing spawn takes: the lowest free slot, or the last slot
/// when every slot is live.
pub open spec fn reuse_slot<T>(s: Seq<Option<T>>) -> int {
    if exists|i: int| is_lowest_free(s, i) {
        choose|i: int| is_lowest_free(s, i)
    } else {
        s.len() - 1
    }
}

/// `s` after a reusing spawn of `v`.
pub open spec fn reused<T>(s: Seq<Option<T>>, v: T) -> Seq<Option<T>> {
    s.update(reuse_slot(s), Some(v))
}

/// `s` after a plain spawn of `v`: into the lowest free slot, or unchanged
/// when every slot is live.
pub open spec fn spawned<T>(s: Seq<Option<T>>, v: T) -> Seq<Option<T>> {
    if all_live(s) { s } else { s.update(reuse_slot(s), Some(v)) }
}

/// What [`Pool::spawn`] promises is exactly [`spawned`].
pub proof fn lemma_spawn_is_spawned<T>(s: Seq<Option<T>>, t: Seq<Option<T>>, v: T, r: Option<usize>)
    requires
        match r {
            Some(i) => is_lowest_free(s, i as int) && t == s.update(i as int, Some(v)),
            None => all_live(s) && t == s,
        },
    ensures
        t == spawned(s, v),
{
    match r {
        Some(i) => {
            assert(!all_live(s)) by {
                assert(s[i as int] is None);
            }
            let c = choose|k: int| is_lowest_free(s, k);
            lemma_lowest_free_unique(s, i as int, c);
        },
        None => {},
    }
}

/// A sequence has at most one lowest free slot.
pub proof fn lemma_lowest_free_unique<T>(s: Seq<Option<T>>, i: int, j: int)
    requires
        is_lowest_free(s, i),
        is_lowest_free(s, j),
    ensures
        i == j,
{
    if i < j {
        assert(s[i] is Some);
    } else if j < i {
        assert(s[j] is Some);
    }
}

pub proof fn lemma_live_count_bound<T>(s: Seq<Option<T>>)
    ensures
        live_count(s) <= s.len(),
        live_count(s) == live_values(s).len(),
        live_count(s) == s.len() <==> all_live(s),
    decreases s.len(),
{
    if s.len() > 0 {
        lemma_live_count_bound(s.drop_last());
        if all_live(s) {
            assert forall|j: int| 0 <= j < s.drop_last().len() implies #[trigger] s.drop_last()[j] is Some by {
                assert(s[j] is Some);
            }
        }
        if live_count(s) == s.len() {
            assert forall|j: int| 0 <= j < s.len() implies #[trigger] s[j] is Some by {
                if j < s.len() - 1 {
                    assert(s.drop_last()[j] is Some);
                }
            }
        }
    }
}

/// Live count and live values of a concatenation split over its parts.
pub proof fn lemma_live_concat<T>(a: Seq<Option<T>>, b: Seq<Option<T>>)
    ensures
        live_values(a + b) == live_values(a) + live_values(b),
        live_count(a + b) == live_count(a) + live_count(b),
    decreases b.len(),
{
    if b.len() == 0 {
        assert(a + b =~= a);
        assert(live_values(b) =~= Seq::<T>::empty());
        assert(live_values(a) + live_values(b) =~= live_values(a));
    } else {
        lemma_live_concat(a, b.drop_last());
        assert((a + b).drop_last() =~= a + b.drop_last());
        assert((a + b).last() == b.last());
        match b.last() {
            Some(v) => {
                assert(live_values(a) + live_values(b.drop_last()).push(v)
                    =~= (live_values(a) + live_values(b.drop_last())).push(v));
            },
            None => {},
        }
    }
}

/// The slot map splits at `i` into the slots before it, slot `i`, and the slots after.
pub proof fn lemma_live_split<T>(s: Seq<Option<T>>, i: int)
    requires
        0 <= i < s.len(),
    ensures
        live_values(s) == live_values(s.take(i)) + live_values(seq![s[i]]) + live_values(s.skip(i + 1)),
        live_count(s) == live_count(s.take(i)) + live_count(seq![s[i]]) + live_count(s.skip(i + 1)),
{
    assert(s =~= s.take(i) + seq![s[i]] + s.skip(i + 1));
    lemma_live_concat(s.take(i), seq![s[i]]);
    lemma_live_concat(s.take(i) + seq![s[i]], s.skip(i + 1));
    assert(seq![s[i]].drop_last() =~= Seq::<Option<T>>::empty());
}

/// Overwriting slot `i` changes the live count by the change in occupancy of that slot.
pub proof fn lemma_live_count_update<T>(s: Seq<Option<T>>, i: int, v: Option<T>)
    requires
        0 <= i < s.len(),
    ensures
        live_count(s.update(i, v)) + (if s[i] is Some { 1int } else { 0int })
            == live_count(s) + (if v is Some { 1int } else { 0int }),
{
    let t = s.update(i, v);
    lemma_live_split(s, i);
    lemma_live_split(t, i);
    assert(t.take(i) =~= s.take(i));
    assert(t.skip(i + 1) =~= s.skip(i + 1));
    assert(seq![s[i]].drop_last() =~= Seq::<Option<T>>::empty());
    assert(seq![v].drop_last() =~= Seq::<Option<T>>::empty());
}

/// A spawn into a pool with a free slot places the object in the lowest free
/// slot, where it reads back, and adds one live object.
pub proof fn lemma_spawn_reads_back<T>(s: Seq<Option<T>>, v: T)
    requires
        !all_live(s),
    ensures
        is_lowest_free(s, reuse_slot(s)),
        spawned(s, v)[reuse_slot(s)] == Some(v),
        live_count(spawned(s, v)) == live_count(s) + 1,
        forall|j: int| 0 <= j < s.len() && j != reuse_slot(s) ==> #[trigger] spawned(s, v)[j] == s[j],
{
    let j0 = choose|j: int| 0 <= j < s.len() && !(#[trigger] s[j] is Some);
    lemma_lowest_free_exists(s, j0);
    let i = reuse_slot(s);
    lemma_live_count_update(s, i, Some(v));
}

/// A pool with a free slot `j` has a lowest free slot.
proof fn lemma_lowest_free_exists<T>(s: Seq<Option<T>>, j: int)
    requires
        0 <= j < s.len(),
        s[j] is None,
    ensures
        exists|i: int| is_lowest_free(s, i),
    decreases j,
{
    if forall|k: int| 0 <= k < j ==> #[trigger] s[k] is Some {
        assert(is_lowest_free(s, j));
    } else {
        let k = choose|k: int| 0 <= k < j && !(#[trigger] s[k] is Some);
        lemma_lowest_free_exists(s, k);
    }
}

/// Freeing slot `i` removes exactly its object from the live objects and
/// keeps the order of the others.
pub proof fn lemma_free_keeps_order<T>(s: Seq<Option<T>>, i: int)
    requires
        0 <= i < s.len(),
    ensures
        live_values(s.update(i, None)) == live_values(s.take(i)) + live_values(s.skip(i + 1)),
        live_values(s) == live_values(s.take(i)) + live_values(seq![s[i]]) + live_values(s.skip(i + 1)),
        live_count(s.update(i, None)) == live_count(s) - (if s[i] is Some { 1int } else { 0int }),
{
    let t = s.update(i, None);
    lemma_live_split(s, i);
    lemma_live_split(t, i);
    assert(t.take(i) =~= s.take(i));
    assert(t.skip(i + 1) =~= s.skip(i + 1));
    assert(seq![t[i]].drop_last() =~= Seq::<Option<T>>::empty());
    assert(live_values(Seq::<Option<T>>::empty()) =~= Seq::<T>::empty());
    assert(seq![t[i]].last() is None);
    assert(live_values(seq![t[i]]) =~= Seq::<T>::empty());
    assert(live_values(t.take(i)) + live_values(seq![t[i]]) =~= live_values(t.take(i)));
    lemma_live_count_update(s, i, None);
}

/// Freeing a slot below which every slot is live makes the next spawn reuse
/// that slot: the freed slot is refilled and every other slot is as before.
pub proof fn lemma_free_then_spawn_reuses<T>(s: Seq<Option<T>>, i: int, v: T)
    requires
        0 <= i < s.len(),
        forall|k: int| 0 <= k < i ==> #[trigger] s[k] is Some,
    ensures
        reuse_slot(s.update(i, None)) == i,
        spawned(s.update(i, None), v) == s.update(i, Some(v)),
{
    let t = s.update(i, None);
    assert(is_lowest_free(t, i));
    let c = choose|k: int| is_lowest_free(t, k);
    lemma_lowest_free_unique(t, i, c);
    assert(!all_live(t));
    assert(t.update(i, Some(v)) =~= s.update(i, Some(v)));
}

// ---------------------------------------------------------------------------
// Pool<T>
// ---------------------------------------------------------------------------

/// A fixed-capacity pool with live/free slot tracking. Its view is the slot
/// map: one `Option` per slot, `Some` for a live object.
#[derive(Clone, Debug)]
pub struct Pool<T> {
    slots: Vec<Option<T>>,
    len: usize,
}

impl<T> View for Pool<T> {
    type V = Seq<Option<T>>;

    closed spec fn view(&self) -> Seq<Option<T>> {
        self.slots@
    }
}

impl<T> Pool<T> {
    /// The cached live count agrees with the slot map.
    pub closed spec fn wf(&self) -> bool {
        self.len == live_count(self.slots@)
    }

    /// Creates an empty pool with `capacity` slots.
    pub fn new(capacity: usize) -> (r: Self)
        ensures
            r.wf(),
            r@.len() == capacity,
            forall|i: int| 0 <= i < capacity ==> #[trigger] r@[i] is None,
    {
        let mut slots: Vec<Option<T>> = Vec::with_capacity(capacity);
        let mut k: usize = 0;
        while k < capacity
            invariant
                k <= capacity,
                slots@.len() == k,
                forall|i: int| 0 <= i < k ==> #[trigger] slots@[i] is None,
                live_count(slots@) == 0,
            decreases capacity - k,
        {
            let ghost before = slots@;
            slots.push(None);
            assert(slots@.drop_last() =~= before);
            k += 1;
        }
        Pool { slots, len: 0 }
    }

    /// Total number of slots (fixed at construction).
    pub fn capacity(&self) -> (r: usize)
        ensures
            r == self@.len(),
    {
        self.slots.len()
    }

    /// Number of live objects.
    pub fn len(&self) -> (r: usize)
        requires
            self.wf(),
        ensures
            r == live_count(self@),
            r == live_values(self@).len(),
    {
        proof {
            lemma_live_count_bound(self.slots@);
        }
        self.len
    }

    /// Whether the pool holds no live objects.
    pub fn is_empty(&self) -> (r: bool)
        requires
            self.wf(),
        ensures
            r == (live_count(self@) == 0),
    {
        self.len == 0
    }

    /// Inserts `value` into the lowest free slot and returns that slot's index,
    /// or returns `None` (leaving the pool unchanged) when every slot is live.
    pub fn spawn(&mut self, value: T) -> (r: Option<usize>)
        requires
            old(self).wf(),
        ensures
            final(self).wf(),
            match r {
                Some(i) => is_lowest_free(old(self)@, i as int)
                    && final(self)@ == old(self)@.update(i as int, Some(value)),
                None => all_live(old(self)@) && final(self)@ == old(self)@,
            },
    {
        let mut i: usize = 0;
        while i < self.slots.len()
            invariant
                i <= self.slots@.len(),
                forall|j: int| 0 <= j < i ==> #[trigger] self.slots@[j] is Some,
            ensures
                i <= self.slots@.len(),
                forall|j: int| 0 <= j < i ==> #[trigger] self.slots@[j] is Some,
                i < self.slots@.len() ==> self.slots@[i as int] is None,
            decreases self.slots.len() - i,
        {
            if self.slots[i].is_none() {
                break;
            }
            i += 1;
        }
        if i == self.slots.len() {
            return None;
        }
        proof {
            lemma_live_count_update(self.slots@, i as int, Some(value));
            lemma_live_count_bound(self.slots@);
            lemma_live_count_bound(self.slots@.update(i as int, Some(value)));
        }
        self.slots.set(i, Some(value));
        self.len = self.len + 1;
        Some(i)
    }

    /// Frees the live object in `slot`; a free slot stays free.
    pub fn free(&mut self, slot: usize)
        requires
            old(self).wf(),
            slot < old(self)@.len(),
        ensures
            final(self).wf(),
            final(self)@ == old(self)@.update(slot as int, None),
    {
        proof {
            lemma_live_count_update(self.slots@, slot as int, None);
        }
        if self.slots[slot].is_some() {
            self.slots.set(slot, None);
            self.len = self.len - 1;
        } else {
            assert(self.slots@.update(slot as int, None) =~= self.slots@);
        }
    }

    /// Borrows the live object in `slot`, if any.
    pub fn get(&self, slot: usize) -> (r: Option<&T>)
        ensures
            match r {
                Some(v) => slot < self@.len() && self@[slot as int] == Some(*v),
                None => slot >= self@.len() || self@[slot as int] is None,
            },
    {
        if slot < self.slots.len() {
            match &self.slots[slot] {
                Some(v) => Some(v),
                None => None,
            }
        } else {
            None
        }
    }

    /// Mutably borrows the live object in `slot`, if any; what is written
    /// through the borrow lands in that slot and nowhere else.
    pub fn get_mut(&mut self, slot: usize) -> (r: Option<&mut T>)
        requires
            old(self).wf(),
        ensures
            match r {
                Some(v) => slot < old(self)@.len() && old(self)@[slot as int] == Some(*v)
                    && final(self)@ == old(self)@.update(slot as int, Some(*final(v)))
                    && final(self).wf(),
                None => (slot >= old(self)@.len() || old(self)@[slot as int] is None)
                    && final(self)@ == old(self)@ && final(self).wf(),
            },
    {
        proof {
            if slot < self.slots@.len() {
                let ghost s = self.slots@;
                assert forall|t: Seq<Option<T>>|
                    s[slot as int] is Some && t[slot as int] is Some && t.len() == s.len()
                        && (forall|j: int| 0 <= j < s.len() && j != slot ==> t[j] == s[j])
                    implies #[trigger] live_count(t) == live_count(s) by {
                    lemma_live_count_update(s, slot as int, t[slot as int]);
                    assert(t =~= s.update(slot as int, t[slot as int]));
                }
            }
        }
        if slot < self.slots.len() {
            match &mut self.slots[slot] {
                Some(v) => Some(v),
                None => None,
            }
        } else {
            None
        }
    }

    /// The live objects in slot (index) order.
    pub fn iter(&self) -> (r: Vec<&T>)
        ensures
            r@.len() == live_values(self@).len(),
            forall|k: int| 0 <= k < r@.len() ==> *#[trigger] r@[k] == live_values(self@)[k],
    {
        let mut out: Vec<&T> = Vec::new();
        let mut i: usize = 0;
        while i < self.slots.len()
            invariant
                i <= self.slots@.len(),
                out@.len() == live_values(self.slots@.take(i as int)).len(),
                forall|k: int| 0 <= k < out@.len() ==> *#[trigger] out@[k] == live_values(self.slots@.take(i as int))[k],
            decreases self.slots.len() - i,
        {
            let ghost pre = out@;
            assert(self.slots@.take(i + 1).drop_last() =~= self.slots@.take(i as int));
            match &self.slots[i] {
                Some(v) => {
                    out.push(v);
                },
                None => {},
            }
            i += 1;
        }
        assert(self.slots@.take(self.slots@.len() as int) =~= self.slots@);
        out
    }

    /// Replaces every live object by `f` applied to it, in slot order; free
    /// slots stay free.
    pub fn iter_mut<F: Fn(&T) -> T>(&mut self, f: F)
        requires
            old(self).wf(),
            forall|a: &T| call_requires(f, (a,)),
        ensures
            final(self).wf(),
            final(self)@.len() == old(self)@.len(),
            forall|i: int| 0 <= i < old(self)@.len() ==> match #[trigger] old(self)@[i] {
                Some(v) => final(self)@[i] is Some && call_ensures(f, (&v,), final(self)@[i]->0),
                None => final(self)@[i] is None,
            },
    {
        let ghost orig = self.slots@;
        let mut i: usize = 0;
        while i < self.slots.len()
            invariant
                forall|a: &T| call_requires(f, (a,)),
                i <= self.slots@.len(),
                self.slots@.len() == orig.len(),
                self.len == live_count(orig),
                forall|j: int| 0 <= j < orig.len() ==> (#[trigger] self.slots@[j] is Some <==> orig[j] is Some),
                forall|j: int| i <= j < orig.len() ==> #[trigger] self.slots@[j] == orig[j],
                forall|j: int| 0 <= j < i ==> match #[trigger] orig[j] {
                    Some(v) => self.slots@[j] is Some && call_ensures(f, (&v,), self.slots@[j]->0),
                    None => self.slots@[j] is None,
                },
                live_count(self.slots@) == live_count(orig),
            decreases self.slots.len() - i,
        {
            let nv = match &self.slots[i] {
                Some(v) => Some(f(v)),
                None => None,
            };
            proof {
                lemma_live_count_update(self.slots@, i as int, nv);
            }
            self.slots.set(i, nv);
            i += 1;
        }
    }

    /// Inserts `value` into the lowest free slot and returns that slot's index;
    /// when every slot is live, `value` overwrites the last slot instead.
    pub fn spawn_reuse(&mut self, value: T) -> (r: usize)
        requires
            old(self).wf(),
            old(self)@.len() > 0,
        ensures
            final(self).wf(),
            r < old(self)@.len(),
            r == reuse_slot(old(self)@),
            final(self)@ == reused(old(self)@, value),
            is_lowest_free(old(self)@, r as int) || (all_live(old(self)@) && r == old(self)@.len() - 1),
    {
        let ghost s0 = self.slots@;
        let n = self.slots.len();
        proof {
            lemma_live_count_bound(self.slots@);
        }
        if self.len == n {
            let ghost s = self.slots@;
            proof {
                lemma_live_count_update(s, n - 1, Some(value));
                lemma_live_count_bound(s.update(n - 1, Some(value)));
            }
            proof {
                assert(!exists|i: int| is_lowest_free(s0, i));
            }
            self.slots.set(n - 1, Some(value));
            return n - 1;
        }
        match self.spawn(value) {
            Some(i) => {
                proof {
                    let c = choose|k: int| is_lowest_free(s0, k);
                    lemma_lowest_free_unique(s0, i as int, c);
                }
                i
            },
            None => 0,
        }
    }
}

// ---------------------------------------------------------------------------
// BloodPool<T>
// ---------------------------------------------------------------------------

/// The state after one step of the swap-remove walk over `s` at position `i`,
/// where the step turned `s[i]` into `v` and answered `kept`.
pub open spec fn walk_next<T>(s: Seq<T>, i: int, v: T, kept: bool) -> (Seq<T>, int) {
    let m = s.update(i, v);
    if kept {
        (m, i + 1)
    } else {
        (m.update(i, m.last()).drop_last(), i)
    }
}

/// The walk state `(run, cursor)` reached from `(s, i)` after the steps
/// `steps`, each step being the value the element at the cursor was turned into
/// and whether it was kept.
pub open spec fn walk_from<T>(s: Seq<T>, i: int, steps: Seq<(T, bool)>) -> (Seq<T>, int)
    decreases steps.len(),
{
    if steps.len() == 0 {
        (s, i)
    } else {
        let (t, j) = walk_from(s, i, steps.drop_last());
        walk_next(t, j, steps.last().0, steps.last().1)
    }
}

/// The element under the cursor when step `k` of `steps` runs.
pub open spec fn walk_cursor<T>(s: Seq<T>, steps: Seq<(T, bool)>, k: int) -> T {
    let (t, j) = walk_from(s, 0, steps.take(k));
    t[j]
}

/// `steps` is a complete swap-remove walk of `keep` over `s`: every step called
/// `keep` on the element under the cursor (inside the run) and took its answer
/// `(kept, new value)`, and the cursor ends past the run.
pub open spec fn is_walk<T, F: Fn(&T) -> (bool, T)>(keep: F, s: Seq<T>, steps: Seq<(T, bool)>) -> bool {
    &&& forall|k: int| 0 <= k < steps.len() ==> {
        let (t, j) = #[trigger] walk_from(s, 0, steps.take(k));
        0 <= j < t.len()
    }
    &&& forall|k: int| 0 <= k < steps.len() ==> call_ensures(
        keep,
        (&#[trigger] walk_cursor(s, steps, k),),
        (steps[k].1, steps[k].0),
    )
    &&& walk_from(s, 0, steps).1 >= walk_from(s, 0, steps).0.len()
}

/// A fixed-capacity pool of contiguous live objects with swap-remove on free.
/// Its view is the run of live objects in slot order.
#[derive(Clone, Debug)]
pub struct BloodPool<T> {
    arr: Vec<T>,
    capacity: usize,
}

impl<T> View for BloodPool<T> {
    type V = Seq<T>;

    closed spec fn view(&self) -> Seq<T> {
        self.arr@
    }
}

impl<T> BloodPool<T> {
    /// The maximum number of live objects fixed at construction.
    pub closed spec fn cap(&self) -> nat {
        self.capacity as nat
    }

    /// The live run never exceeds the capacity.
    pub closed spec fn wf(&self) -> bool {
        self.arr@.len() <= self.capacity
    }

    /// Creates an empty pool that can hold up to `capacity` live objects.
    pub fn new(capacity: usize) -> (r: Self)
        ensures
            r.wf(),
            r@ == Seq::<T>::empty(),
            r.cap() == capacity,
    {
        BloodPool { arr: Vec::with_capacity(capacity), capacity }
    }

    /// Maximum number of live objects.
    pub fn capacity(&self) -> (r: usize)
        ensures
            r == self.cap(),
    {
        self.capacity
    }

    /// Number of live objects.
    pub fn len(&self) -> (r: usize)
        ensures
            r == self@.len(),
    {
        self.arr.len()
    }

    /// Whether the pool holds no live objects.
    pub fn is_empty(&self) -> (r: bool)
        ensures
            r == (self@.len() == 0),
    {
        self.arr.len() == 0
    }

    /// Appends `value` and returns its slot index, or returns `None` (leaving the
    /// pool unchanged) when the pool is full.
    pub fn spawn(&mut self, value: T) -> (r: Option<usize>)
        requires
            old(self).wf(),
        ensures
            final(self).wf(),
            final(self).cap() == old(self).cap(),
            match r {
                Some(i) => i == old(self)@.len() && old(self)@.len() < old(self).cap()
                    && final(self)@ == old(self)@.push(value),
                None => old(self)@.len() == old(self).cap() && final(self)@ == old(self)@,
            },
    {
        if self.arr.len() == self.capacity {
            return None;
        }
        let idx = self.arr.len();
        self.arr.push(value);
        Some(idx)
    }

    /// The live object at `index`.
    pub fn get(&self, index: usize) -> (r: &T)
        requires
            index < self@.len(),
        ensures
            *r == self@[index as int],
    {
        &self.arr[index]
    }

    /// Replaces the live object at `index` by `value`.
    pub fn set(&mut self, index: usize, value: T)
        requires
            old(self).wf(),
            index < old(self)@.len(),
        ensures
            final(self).wf(),
            final(self).cap() == old(self).cap(),
            final(self)@ == old(self)@.update(index as int, value),
    {
        self.arr.set(index, value);
    }

    /// Frees the object at `index`: the last live object takes its place.
    pub fn free(&mut self, index: usize)
        requires
            old(self).wf(),
            index < old(self)@.len(),
        ensures
            final(self).wf(),
            final(self).cap() == old(self).cap(),
            final(self)@ == old(self)@.update(index as int, old(self)@.last()).drop_last(),
    {
        self.arr.swap_remove(index);
    }

    /// The live objects in slot order.
    pub fn iter(&self) -> (r: Vec<&T>)
        ensures
            r@.len() == self@.len(),
            forall|k: int| 0 <= k < r@.len() ==> *#[trigger] r@[k] == self@[k],
    {
        let mut out: Vec<&T> = Vec::new();
        let mut i: usize = 0;
        while i < self.arr.len()
            invariant
                i <= self.arr@.len(),
                out@.len() == i,
                forall|k: int| 0 <= k < i ==> *#[trigger] out@[k] == self.arr@[k],
            decreases self.arr.len() - i,
        {
            out.push(&self.arr[i]);
            i += 1;
        }
        out
    }

    /// Replaces every live object by `f` applied to it, in slot order.
    pub fn iter_mut<F: Fn(&T) -> T>(&mut self, f: F)
        requires
            old(self).wf(),
            forall|a: &T| call_requires(f, (a,)),
        ensures
            final(self).wf(),
            final(self).cap() == old(self).cap(),
            final(self)@.len() == old(self)@.len(),
            forall|i: int| 0 <= i < old(self)@.len() ==> call_ensures(f, (&#[trigger] old(self)@[i],), final(self)@[i]),
    {
        let ghost orig = self.arr@;
        let mut i: usize = 0;
        while i < self.arr.len()
            invariant
                forall|a: &T| call_requires(f, (a,)),
                i <= self.arr@.len(),
                self.arr@.len() == orig.len(),
                self.capacity == old(self).capacity,
                orig.len() <= self.capacity,
                forall|j: int| i <= j < orig.len() ==> #[trigger] self.arr@[j] == orig[j],
                forall|j: int| 0 <= j < i ==> call_ensures(f, (&#[trigger] orig[j],), self.arr@[j]),
            decreases self.arr.len() - i,
        {
            let v = f(&self.arr[i]);
            self.arr.set(i, v);
            i += 1;
        }
    }

    /// Walks every live object in slot order, handing it to `keep`, which
    /// answers whether to keep it together with its processed value. A kept
    /// object is replaced by its processed value; a dropped one is freed by
    /// swap-remove and its slot, now holding the former last object, is
    /// examined again.
    pub fn retain_processing<F: Fn(&T) -> (bool, T)>(&mut self, keep: F)
        requires
            old(self).wf(),
            forall|a: &T| call_requires(keep, (a,)),
        ensures
            final(self).wf(),
            final(self).cap() == old(self).cap(),
            final(self)@.len() <= old(self)@.len(),
            exists|steps: Seq<(T, bool)>| {
                &&& is_walk(keep, old(self)@, steps)
                &&& walk_from(old(self)@, 0, steps).0 == final(self)@
            },
    {
        let ghost orig = self.arr@;
        let ghost mut steps: Seq<(T, bool)> = Seq::empty();
        let mut i: usize = 0;
        assert(steps.take(0) =~= steps);
        while i < self.arr.len()
            invariant
                forall|a: &T| call_requires(keep, (a,)),
                i <= self.arr@.len(),
                self.arr@.len() <= orig.len(),
                self.capacity == old(self).capacity,
                orig.len() <= self.capacity,
                walk_from(orig, 0, steps) == (self.arr@, i as int),
                forall|k: int| 0 <= k < steps.len() ==> {
                    let (t, j) = #[trigger] walk_from(orig, 0, steps.take(k));
                    0 <= j < t.len()
                },
                forall|k: int| 0 <= k < steps.len() ==> call_ensures(
                    keep,
                    (&#[trigger] walk_cursor(orig, steps, k),),
                    (steps[k].1, steps[k].0),
                ),
            decreases self.arr.len() - i,
        {
            let ghost before = self.arr@;
            let ghost bi = i as int;
            let (r, v) = keep(&self.arr[i]);
            let ghost after = v;
            self.arr.set(i, v);
            if r {
                i += 1;
            } else {
                self.arr.swap_remove(i);
            }
            proof {
                let ghost old_steps = steps;
                let ghost n = old_steps.len() as int;
                steps = steps.push((after, r));
                assert(steps.drop_last() =~= old_steps);
                assert(steps.take(n) =~= old_steps);
                assert(walk_from(orig, 0, steps.take(n)) == (before, bi));
                assert forall|k: int| 0 <= k < steps.len() implies {
                    let (t, j) = #[trigger] walk_from(orig, 0, steps.take(k));
                    0 <= j < t.len()
                } by {
                    if k < n {
                        assert(steps.take(k) =~= old_steps.take(k));
                    }
                }
                assert forall|k: int| 0 <= k < steps.len() implies call_ensures(
                    keep,
                    (&#[trigger] walk_cursor(orig, steps, k),),
                    (steps[k].1, steps[k].0),
                ) by {
                    if k < n {
                        assert(steps.take(k) =~= old_steps.take(k));
                        assert(walk_cursor(orig, steps, k) == walk_cursor(orig, old_steps, k));
                        assert(steps[k] == old_steps[k]);
                    } else {
                        assert(walk_cursor(orig, steps, k) == before[bi]);
                        assert(steps[k] == (after, r));
                    }
                }
            }
        }
        proof {
            assert(steps.take(steps.len() as int) =~= steps);
            assert(is_walk(keep, orig, steps));
            assert(walk_from(orig, 0, steps).0 == self.arr@);
            assert(orig == old(self)@);
            assert(is_walk(keep, old(self)@, steps) && walk_from(old(self)@, 0, steps).0 == self@);
        }
    }
}

} // verus!
