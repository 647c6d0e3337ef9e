//! The per-tick sound-event stream.
//!
//! Every play/stop site of the simulation emits a [`SoundEvent`] carrying an
//! already resolved index into the game's sound table; the caller drains the
//! tick's events and plays them. The stream, together with the tick's resolved
//! worm-hook sound indices, is a value the caller owns and threads through the
//! tick. A negative sound index means "no sound": playing it emits nothing.

use vstd::prelude::*;

verus! {

/// Whether an event starts a sound or stops a looping channel.
#[derive(Clone, Copy, Debug, PartialEq, Eq)]
pub enum SoundAction {
    Play,
    Stop,
}

/// The identity of a looping sound channel.
#[derive(Clone, Copy, Debug, PartialEq, Eq, Hash)]
pub enum LoopKey {
    /// Keyed on a worm.
    Worm(u8),
    /// Keyed on a worm's weapon slot.
    WormWeapon(u8, u8),
}

/// One sound event.
#[derive(Clone, Copy, Debug, PartialEq, Eq)]
pub struct SoundEvent {
    /// The resolved index into the sound table (-1 for a stop).
    pub sound: i32,
    /// `None` for a one-shot, `Some(key)` for a looping channel.
    pub key: Option<LoopKey>,
    pub action: SoundAction,
}

/// A one-shot play of `sound`.
pub open spec fn spec_one_shot(sound: i32) -> SoundEvent {
    SoundEvent { sound, key: None, action: SoundAction::Play }
}

/// A keyed loop start of `sound` on `key`.
pub open spec fn spec_loop_play(sound: i32, key: LoopKey) -> SoundEvent {
    SoundEvent { sound, key: Some(key), action: SoundAction::Play }
}

/// A keyed loop stop on `key`.
pub open spec fn spec_loop_stop(key: LoopKey) -> SoundEvent {
    SoundEvent { sound: -1i32, key: Some(key), action: SoundAction::Stop }
}

impl SoundEvent {
    /// A fire-and-forget play of `sound`.
    pub fn one_shot(sound: i32) -> (r: Self)
        ensures
            r == spec_one_shot(sound),
    {
        SoundEvent { sound, key: None, action: SoundAction::Play }
    }

    /// A keyed loop start of `sound` on `key`.
    pub fn loop_play(sound: i32, key: LoopKey) -> (r: Self)
        ensures
            r == spec_loop_play(sound, key),
    {
        SoundEvent { sound, key: Some(key), action: SoundAction::Play }
    }

    /// A keyed loop stop on `key`; its sound index is pinned to -1.
    pub fn loop_stop(key: LoopKey) -> (r: Self)
        ensures
            r == spec_loop_stop(key),
    {
        SoundEvent { sound: -1, key: Some(key), action: SoundAction::Stop }
    }
}

/// The resolved sound indices of the four worm hooks played from inside the
/// simulation (negative when unset).
#[derive(Clone, Copy, Debug, PartialEq, Eq)]
pub struct HookIndices {
    pub bump: i32,
    pub reloaded: i32,
    pub alive: i32,
    pub ninjarope_throw: i32,
}

/// Every hook unset.
pub open spec fn spec_unset_hooks() -> HookIndices {
    HookIndices { bump: -1i32, reloaded: -1i32, alive: -1i32, ninjarope_throw: -1i32 }
}

impl HookIndices {
    /// Every hook unset (-1).
    pub fn unset() -> (r: HookIndices)
        ensures
            r == spec_unset_hooks(),
    {
        HookIndices { bump: -1, reloaded: -1, alive: -1, ninjarope_throw: -1 }
    }
}

/// The sound events of one tick, in emission order, with the tick's hooks.
pub struct SoundFrame {
    events: Vec<SoundEvent>,
    hooks: HookIndices,
}

/// The events after playing `sound` as a one-shot: appended when `sound >= 0`,
/// unchanged otherwise.
pub open spec fn played(events: Seq<SoundEvent>, sound: i32) -> Seq<SoundEvent> {
    if sound >= 0 { events.push(spec_one_shot(sound)) } else { events }
}

impl SoundFrame {
    /// The events collected so far.
    pub closed spec fn events(&self) -> Seq<SoundEvent> {
        self.events@
    }

    /// The hooks published for the current tick.
    pub closed spec fn hooks(&self) -> HookIndices {
        self.hooks
    }

    /// An empty stream with every hook unset.
    pub fn new() -> (r: Self)
        ensures
            r.events() == Seq::<SoundEvent>::empty(),
            r.hooks() == spec_unset_hooks(),
    {
        SoundFrame { events: Vec::new(), hooks: HookIndices::unset() }
    }
}

/// Opens a tick: empties the stream and publishes the tick's hooks.
pub fn begin_frame(frame: &mut SoundFrame, hooks: HookIndices)
    ensures
        final(frame).events() == Seq::<SoundEvent>::empty(),
        final(frame).hooks() == hooks,
{
    frame.events.clear();
    frame.hooks = hooks;
}

/// Empties the stream, keeping the hooks.
pub fn reset_frame(frame: &mut SoundFrame)
    ensures
        final(frame).events() == Seq::<SoundEvent>::empty(),
        final(frame).hooks() == old(frame).hooks(),
{
    frame.events.clear();
}

/// Appends `ev`.
pub fn emit(frame: &mut SoundFrame, ev: SoundEvent)
    ensures
        final(frame).events() == old(frame).events().push(ev),
        final(frame).hooks() == old(frame).hooks(),
{
    frame.events.push(ev);
}

/// Plays `sound` as a one-shot; a negative index emits nothing.
pub fn one_shot(frame: &mut SoundFrame, sound: i32)
    ensures
        final(frame).events() == played(old(frame).events(), sound),
        final(frame).hooks() == old(frame).hooks(),
{
    if sound >= 0 {
        emit(frame, SoundEvent::one_shot(sound));
    }
}

/// Starts (or keeps sounding) the loop `key` at `sound`; a negative index
/// emits nothing.
pub fn play_loop(frame: &mut SoundFrame, sound: i32, key: LoopKey)
    ensures
        final(frame).events() == if sound >= 0 {
            old(frame).events().push(spec_loop_play(sound, key))
        } else {
            old(frame).events()
        },
        final(frame).hooks() == old(frame).hooks(),
{
    if sound >= 0 {
        emit(frame, SoundEvent::loop_play(sound, key));
    }
}

/// Stops the loop `key`; always emitted.
pub fn stop_loop(frame: &mut SoundFrame, key: LoopKey)
    ensures
        final(frame).events() == old(frame).events().push(spec_loop_stop(key)),
        final(frame).hooks() == old(frame).hooks(),
{
    emit(frame, SoundEvent::loop_stop(key));
}

/// Plays the tick's wall-bounce hook.
pub fn play_bump(frame: &mut SoundFrame)
    ensures
        final(frame).events() == played(old(frame).events(), old(frame).hooks().bump),
        final(frame).hooks() == old(frame).hooks(),
{
    let s = frame.hooks.bump;
    one_shot(frame, s);
}

/// Plays the tick's reload-complete hook.
pub fn play_reloaded(frame: &mut SoundFrame)
    ensures
        final(frame).events() == played(old(frame).events(), old(frame).hooks().reloaded),
        final(frame).hooks() == old(frame).hooks(),
{
    let s = frame.hooks.reloaded;
    one_shot(frame, s);
}

/// Plays the tick's respawn hook.
pub fn play_alive(frame: &mut SoundFrame)
    ensures
        final(frame).events() == played(old(frame).events(), old(frame).hooks().alive),
        final(frame).hooks() == old(frame).hooks(),
{
    let s = frame.hooks.alive;
    one_shot(frame, s);
}

/// Plays the tick's rope-throw hook.
pub fn play_ninjarope_throw(frame: &mut SoundFrame)
    ensures
        final(frame).events() == played(old(frame).events(), old(frame).hooks().ninjarope_throw),
        final(frame).hooks() == old(frame).hooks(),
{
    let s = frame.hooks.ninjarope_throw;
    one_shot(frame, s);
}

/// Returns the collected events in emission order and empties the stream,
/// keeping the hooks.
pub fn take_frame(frame: &mut SoundFrame) -> (r: Vec<SoundEvent>)
    ensures
        r@ == old(frame).events(),
        final(frame).events() == Seq::<SoundEvent>::empty(),
        final(frame).hooks() == old(frame).hooks(),
{
    let mut out: Vec<SoundEvent> = Vec::new();
    std::mem::swap(&mut out, &mut frame.events);
    out
}

} // verus!
