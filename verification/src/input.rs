//! Movement intent: the displacement that the camera takes each tick, as key
//! presses set it and the decay timer clears it.
//!
//! The caller reads keys and runs the timer. Each hands its events to the
//! one owner of the intent, which applies them here in the order in which
//! they arrived.

use vstd::prelude::*;

use crate::vector::Vector2;

verus! {

/// How many frame times pass between two decays of the intent.
pub const DECAY_FACTOR: u128 = 5;

/// A key press, as far as movement depends on it.
#[derive(Debug, Clone, Copy, PartialEq, Eq, Structural)]
pub enum Key {
    /// A key that types the given character.
    Char(char),
    /// Any other key.
    Other,
}

/// What reaches the movement intent.
#[derive(Debug, Clone, Copy, PartialEq, Eq, Structural)]
pub enum InputEvent {
    /// A key was pressed.
    KeyPressed(Key),
    /// The decay timer fired.
    Decayed,
}

/// The displacement that a key asks for: one step left for `a`, right for
/// `d`, up for `w`, down for `s`, and none for any other key.
pub open spec fn intent_of(key: Key) -> Vector2 {
    match key {
        Key::Char('a') => Vector2 { x: -1i16, y: 0 },
        Key::Char('d') => Vector2 { x: 1, y: 0 },
        Key::Char('w') => Vector2 { x: 0, y: -1i16 },
        Key::Char('s') => Vector2 { x: 0, y: 1 },
        _ => Vector2 { x: 0, y: 0 },
    }
}

/// The intent after one event: a key press replaces it, a decay clears it.
pub open spec fn intent_after_event(intent: Vector2, event: InputEvent) -> Vector2 {
    match event {
        InputEvent::KeyPressed(key) => intent_of(key),
        InputEvent::Decayed => Vector2 { x: 0, y: 0 },
    }
}

/// The intent after a run of events, applied first to last.
pub open spec fn intent_after(intent: Vector2, events: Seq<InputEvent>) -> Vector2
    decreases events.len(),
{
    if events.len() == 0 {
        intent
    } else {
        intent_after_event(intent_after(intent, events.drop_last()), events.last())
    }
}

/// The displacement that a key asks for.
pub fn movement_for(key: Key) -> (intent: Vector2)
    ensures
        intent == intent_of(key),
        -1 <= intent.x <= 1,
        -1 <= intent.y <= 1,
        intent.x == 0 || intent.y == 0,
{
    let mut horizontal_movement: i16 = 0;
    let mut vertical_movement: i16 = 0;
    match key {
        Key::Char('a') => {
            horizontal_movement = -1;
        },
        Key::Char('d') => {
            horizontal_movement = 1;
        },
        Key::Char('w') => {
            vertical_movement = -1;
        },
        Key::Char('s') => {
            vertical_movement = 1;
        },
        _ => {},
    }
    Vector2 { x: horizontal_movement, y: vertical_movement }
}

/// The intent after one event.
pub fn apply_event(intent: Vector2, event: InputEvent) -> (next: Vector2)
    ensures
        next == intent_after_event(intent, event),
{
    match event {
        InputEvent::KeyPressed(key) => movement_for(key),
        InputEvent::Decayed => Vector2::new(),
    }
}

/// The intent after the events that arrived since it was last sampled, in
/// their order of arrival.
pub fn apply_events(intent: Vector2, events: &Vec<InputEvent>) -> (next: Vector2)
    ensures
        next == intent_after(intent, events@),
{
    let mut current = intent;
    let n = events.len();
    let mut i: usize = 0;
    assert(events@.take(0) =~= Seq::<InputEvent>::empty());
    while i < n
        invariant
            n == events.len(),
            i <= n,
            current == intent_after(intent, events@.take(i as int)),
        decreases n - i,
    {
        assert(events@.take(i + 1).drop_last() =~= events@.take(i as int));
        current = apply_event(current, events[i]);
        i += 1;
    }
    assert(events@.take(n as int) =~= events@);
    current
}

/// The time between two decays of the intent: `DECAY_FACTOR` frame times.
pub fn decay_interval(delta_time: u128) -> (interval: u128)
    requires
        delta_time * DECAY_FACTOR <= u128::MAX,
    ensures
        interval == delta_time * DECAY_FACTOR,
{
    delta_time * DECAY_FACTOR
}

/// Decay wins over stale input. Where the timer has fired and no key was
/// pressed after it, the intent reads as zero, whatever it was before and
/// whatever was pressed earlier.
pub proof fn lemma_decay_clears_intent(intent: Vector2, events: Seq<InputEvent>, fired: int)
    requires
        0 <= fired < events.len(),
        events[fired] is Decayed,
        forall|later: int| fired < later < events.len() ==> events[later] is Decayed,
    ensures
        intent_after(intent, events) == (Vector2 { x: 0, y: 0 }),
{
    assert(events.last() is Decayed);
}

/// A fresh key press is not lost. The intent reads as what the last key
/// asked for, where no decay came after it.
pub proof fn lemma_last_key_sets_intent(intent: Vector2, events: Seq<InputEvent>, key: Key)
    requires
        events.len() > 0,
        events.last() == InputEvent::KeyPressed(key),
    ensures
        intent_after(intent, events) == intent_of(key),
{
}

/// With no event, the intent stays.
pub proof fn lemma_intent_persists(intent: Vector2)
    ensures
        intent_after(intent, Seq::empty()) == intent,
{
}

} // verus!
