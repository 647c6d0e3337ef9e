//! The per-tick explosion-shake event stream.
//!
//! Every explosion object created with a positive shake emits one
//! `(x, y, amount)` event; the caller drains the tick's events and applies them
//! to its viewports. The stream is a value the caller owns and threads through
//! the tick.

use vstd::prelude::*;

verus! {

/// One explosion-shake event: the raw blast pixel and the raw shake amount.
#[derive(Clone, Copy, Debug, PartialEq, Eq)]
pub struct ShakeEvent {
    pub x: i32,
    pub y: i32,
    pub amount: i32,
}

/// The shake events collected during one tick, in emission order.
pub struct ShakeFrame {
    events: Vec<ShakeEvent>,
}

impl View for ShakeFrame {
    type V = Seq<ShakeEvent>;

    closed spec fn view(&self) -> Seq<ShakeEvent> {
        self.events@
    }
}

impl ShakeFrame {
    /// An empty stream.
    pub fn new() -> (r: Self)
        ensures
            r@ == Seq::<ShakeEvent>::empty(),
    {
        ShakeFrame { events: Vec::new() }
    }
}

/// Opens a tick: the stream is emptied.
pub fn begin_frame(frame: &mut ShakeFrame)
    ensures
        final(frame)@ == Seq::<ShakeEvent>::empty(),
{
    frame.events.clear();
}

/// Empties the stream.
pub fn reset_frame(frame: &mut ShakeFrame)
    ensures
        final(frame)@ == Seq::<ShakeEvent>::empty(),
{
    frame.events.clear();
}

/// Appends the event `(x, y, amount)`.
pub fn emit(frame: &mut ShakeFrame, x: i32, y: i32, amount: i32)
    ensures
        final(frame)@ == old(frame)@.push(ShakeEvent { x, y, amount }),
{
    frame.events.push(ShakeEvent { x, y, amount });
}

/// Returns the collected events in emission order and empties the stream.
pub fn take_frame(frame: &mut ShakeFrame) -> (r: Vec<ShakeEvent>)
    ensures
        r@ == old(frame)@,
        final(frame)@ == Seq::<ShakeEvent>::empty(),
{
    let mut out: Vec<ShakeEvent> = Vec::new();
    std::mem::swap(&mut out, &mut frame.events);
    out
}

} // verus!
