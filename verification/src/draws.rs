//! A tape of raw random-generator outputs, read front to back.
//!
//! The simulation's random stream is a 32-bit generator owned by the caller.
//! Logic that consumes a data-dependent number of draws takes the caller's raw
//! outputs on a [`Draws`] tape instead: a draw below `n` maps the next raw
//! output `v` to the high word of `v * n` (so a draw below 0 is 0, and a draw
//! below `n > 0` is below `n`), and a low-bit draw keeps `v & 1`.
//!
//! Reading past the end of the tape yields `0`, leaves the position where it
//! is, and marks the tape short; a caller that finds its tape short after a
//! call supplies a longer one.

use vstd::prelude::*;

verus! {

/// The draw below `n` that the raw output `v` selects: `floor(v * n / 2^32)`.
pub open spec fn scaled(v: u32, n: u32) -> u32 {
    ((v as int * n as int) / 0x1_0000_0000) as u32
}

/// A draw below `n > 0` is below `n`; a draw below `0` is `0`.
pub proof fn lemma_scaled_below(v: u32, n: u32)
    ensures
        0 <= (v as int * n as int) / 0x1_0000_0000 < 0x1_0000_0000,
        n > 0 ==> scaled(v, n) < n,
        n == 0 ==> scaled(v, n) == 0,
{
    assert(0 <= v as int * n as int <= 0xffff_ffff * 0xffff_ffff) by (nonlinear_arith)
        requires 0 <= v <= 0xffff_ffff, 0 <= n <= 0xffff_ffff;
    assert(n > 0 ==> (v as int * n as int) / 0x1_0000_0000 < n as int) by (nonlinear_arith)
        requires 0 <= v < 0x1_0000_0000, 0 <= n;
}

/// What a tape is: the raw outputs, the index of the next one, and whether a
/// read ran past the end.
pub struct DrawTape {
    pub raw: Seq<u32>,
    pub pos: int,
    pub short: bool,
}

/// Reads the next raw output: past the end it is `0` and the tape turns short.
pub open spec fn tape_next(t: DrawTape) -> (u32, DrawTape) {
    if 0 <= t.pos < t.raw.len() {
        (t.raw[t.pos], DrawTape { pos: t.pos + 1, ..t })
    } else {
        (0, DrawTape { short: true, ..t })
    }
}

/// Reads a draw below `n`.
pub open spec fn tape_bound(t: DrawTape, n: u32) -> (u32, DrawTape) {
    let (v, t1) = tape_next(t);
    (scaled(v, n), t1)
}

/// A draw read from a tape is below its bound when the bound is positive.
pub proof fn lemma_tape_bound_below(t: DrawTape, n: u32)
    ensures
        n > 0 ==> tape_bound(t, n).0 < n,
        n == 0 ==> tape_bound(t, n).0 == 0,
{
    lemma_scaled_below(tape_next(t).0, n);
}

/// A tape of raw generator outputs and a read position.
pub struct Draws {
    raw: Vec<u32>,
    pos: usize,
    short: bool,
}

impl View for Draws {
    type V = DrawTape;

    closed spec fn view(&self) -> DrawTape {
        DrawTape { raw: self.raw@, pos: self.pos as int, short: self.short }
    }
}

impl Draws {
    /// The position never passes the end of the tape.
    pub closed spec fn wf(&self) -> bool {
        self.pos <= self.raw@.len()
    }

    /// A well-formed tape's position lies within its outputs.
    pub proof fn lemma_pos_in_range(&self)
        requires
            self.wf(),
        ensures
            0 <= self@.pos <= self@.raw.len(),
    {
    }

    /// A tape over `raw`, positioned at its first output.
    pub fn new(raw: Vec<u32>) -> (r: Draws)
        ensures
            r.wf(),
            r@ == (DrawTape { raw: raw@, pos: 0, short: false }),
    {
        Draws { raw, pos: 0, short: false }
    }

    /// How many outputs have been read.
    pub fn used(&self) -> (r: usize)
        ensures
            r == self@.pos,
    {
        self.pos
    }

    /// Whether a read ran past the end of the tape.
    pub fn is_short(&self) -> (r: bool)
        ensures
            r == self@.short,
    {
        self.short
    }

    /// Reads the next raw output ([`tape_next`]).
    pub fn next_raw(&mut self) -> (r: u32)
        requires
            old(self).wf(),
        ensures
            final(self).wf(),
            (r, final(self)@) == tape_next(old(self)@),
    {
        if self.pos < self.raw.len() {
            let v = self.raw[self.pos];
            self.pos = self.pos + 1;
            v
        } else {
            self.short = true;
            0
        }
    }

    /// The draw below `n` that the next read would give, without reading it.
    pub fn peek_bound(&self, n: u32) -> (r: u32)
        requires
            self.wf(),
        ensures
            r == tape_bound(self@, n).0,
    {
        let v = if self.pos < self.raw.len() { self.raw[self.pos] } else { 0 };
        proof {
            lemma_scaled_below(v, n);
            assert(v as int * n as int <= 0xffff_ffff * 0xffff_ffff) by (nonlinear_arith)
                requires v <= 0xffff_ffff, n <= 0xffff_ffff;
        }
        let p: u64 = (v as u64) * (n as u64);
        let q = p >> 32u64;
        assert(q == p / 0x1_0000_0000u64) by (bit_vector)
            requires q == p >> 32u64;
        q as u32
    }

    /// Reads a draw below `n` ([`tape_bound`]).
    pub fn bound(&mut self, n: u32) -> (r: u32)
        requires
            old(self).wf(),
        ensures
            final(self).wf(),
            (r, final(self)@) == tape_bound(old(self)@, n),
            n > 0 ==> r < n,
    {
        let v = self.next_raw();
        proof {
            lemma_scaled_below(v, n);
            assert(v as int * n as int <= 0xffff_ffff * 0xffff_ffff) by (nonlinear_arith)
                requires v <= 0xffff_ffff, n <= 0xffff_ffff;
        }
        let p: u64 = (v as u64) * (n as u64);
        let q = p >> 32u64;
        assert(q == p / 0x1_0000_0000u64) by (bit_vector)
            requires q == p >> 32u64;
        q as u32
    }
}

} // verus!
