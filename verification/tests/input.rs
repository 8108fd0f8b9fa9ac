use tileworld::input::InputEvent::{self, Decayed, KeyPressed};
use tileworld::input::{apply_event, apply_events, decay_interval, movement_for, Key, DECAY_FACTOR};
use tileworld::vector::Vector2;

const ZERO: Vector2 = Vector2 { x: 0, y: 0 };

#[test]
fn the_four_movement_keys_are_unit_steps() {
    assert_eq!(movement_for(Key::Char('a')), Vector2 { x: -1, y: 0 });
    assert_eq!(movement_for(Key::Char('d')), Vector2 { x: 1, y: 0 });
    assert_eq!(movement_for(Key::Char('w')), Vector2 { x: 0, y: -1 });
    assert_eq!(movement_for(Key::Char('s')), Vector2 { x: 0, y: 1 });
}

#[test]
fn any_other_key_asks_for_no_movement() {
    assert_eq!(movement_for(Key::Other), ZERO);
    assert_eq!(movement_for(Key::Char('x')), ZERO);
    assert_eq!(movement_for(Key::Char('A')), ZERO);
    assert_eq!(movement_for(Key::Char(' ')), ZERO);
    assert_eq!(movement_for(Key::Char('\u{e4}')), ZERO);
}

#[test]
fn a_key_press_replaces_the_intent() {
    let moving_right = Vector2 { x: 1, y: 0 };
    assert_eq!(apply_event(moving_right, KeyPressed(Key::Char('w'))), Vector2 { x: 0, y: -1 });
    assert_eq!(apply_event(moving_right, KeyPressed(Key::Other)), ZERO);
    assert_eq!(apply_event(ZERO, KeyPressed(Key::Char('a'))), Vector2 { x: -1, y: 0 });
}

#[test]
fn a_decay_clears_the_intent() {
    assert_eq!(apply_event(Vector2 { x: 1, y: 0 }, Decayed), ZERO);
    assert_eq!(apply_event(ZERO, Decayed), ZERO);
    assert_eq!(apply_event(Vector2 { x: 7, y: -9 }, Decayed), ZERO);
}

#[test]
fn without_events_the_intent_stays() {
    let intent = Vector2 { x: 0, y: 1 };
    assert_eq!(apply_events(intent, &Vec::new()), intent);
}

#[test]
fn the_intent_reads_zero_once_the_timer_fired_after_the_last_key() {
    let events = vec![KeyPressed(Key::Char('d')), KeyPressed(Key::Char('s')), Decayed];
    assert_eq!(apply_events(Vector2 { x: -1, y: 0 }, &events), ZERO);
    let events = vec![KeyPressed(Key::Char('d')), Decayed, Decayed, Decayed];
    assert_eq!(apply_events(ZERO, &events), ZERO);
}

#[test]
fn a_key_pressed_after_a_decay_is_not_lost() {
    let events = vec![KeyPressed(Key::Char('a')), Decayed, KeyPressed(Key::Char('d'))];
    assert_eq!(apply_events(ZERO, &events), Vector2 { x: 1, y: 0 });
}

#[test]
fn events_apply_in_their_order() {
    let events: Vec<InputEvent> =
        vec![Decayed, KeyPressed(Key::Char('w')), KeyPressed(Key::Char('s'))];
    assert_eq!(apply_events(ZERO, &events), Vector2 { x: 0, y: 1 });
    let mut step_by_step = ZERO;
    for event in &events {
        step_by_step = apply_event(step_by_step, *event);
    }
    assert_eq!(apply_events(ZERO, &events), step_by_step);
}

#[test]
fn the_intent_decays_every_five_frame_times() {
    assert_eq!(DECAY_FACTOR, 5);
    assert_eq!(decay_interval(50_000), 250_000);
    assert_eq!(decay_interval(100_000), 500_000);
    assert_eq!(decay_interval(0), 0);
    assert_eq!(decay_interval(u128::MAX / 5), u128::MAX);
}
