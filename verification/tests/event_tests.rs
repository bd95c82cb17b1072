//! Events: key translation, the event queue, the control state machine,
//! and the polling source's timing decisions.

use tfxed_core::dispatcher::{poll_timeout, tick_due};
use tfxed_core::event::{key_event_from_host, translate_key, RawKey, MOD_ALT, MOD_CONTROL, MOD_SHIFT};
use tfxed_core::{App, AppEvent, EventQueue, KeyCode, KeyEvent, ModifierKeys};

fn key(code: KeyCode) -> AppEvent {
    AppEvent::KeyPress(KeyEvent { key_code: code, modifier_keys: ModifierKeys::empty() })
}

#[test]
fn known_keys_translate_one_to_one() {
    assert_eq!(translate_key(RawKey::Enter), KeyCode::Enter);
    assert_eq!(translate_key(RawKey::Esc), KeyCode::Esc);
    assert_eq!(translate_key(RawKey::F(5)), KeyCode::F(5));
    assert_eq!(translate_key(RawKey::Char('q')), KeyCode::Char('q'));
    assert_eq!(translate_key(RawKey::BackTab), KeyCode::BackTab);
}

#[test]
fn unidentified_key_degrades_to_blank_press() {
    // translation never drops an event: unknown codes become a blank press
    assert_eq!(translate_key(RawKey::Unidentified), KeyCode::Char(' '));
}

#[test]
fn modifier_flags_become_bits() {
    let ev = key_event_from_host(RawKey::Char('x'), true, true, false, false, false);
    assert_eq!(ev.key_code, KeyCode::Char('x'));
    assert!(ev.modifier_keys.contains(MOD_SHIFT));
    assert!(ev.modifier_keys.contains(MOD_CONTROL));
    assert!(!ev.modifier_keys.contains(MOD_ALT));
    let none = key_event_from_host(RawKey::Up, false, false, false, false, false);
    assert_eq!(none.modifier_keys.bits, 0);
}

#[test]
fn queue_hands_events_out_in_fifo_order() {
    let mut q = EventQueue::new();
    q.push(AppEvent::Tick);
    q.push(key(KeyCode::Char('a')));
    q.push(AppEvent::Quit);
    assert_eq!(q.len(), 3);
    assert!(matches!(q.try_next(), Some(AppEvent::Tick)));
    assert!(matches!(
        q.try_next(),
        Some(AppEvent::KeyPress(KeyEvent { key_code: KeyCode::Char('a'), .. }))
    ));
    assert!(matches!(q.try_next(), Some(AppEvent::Quit)));
    assert!(q.try_next().is_none());
}

#[test]
fn key_presses_bump_the_counter() {
    let mut app = App::new();
    app.apply_event(key(KeyCode::Char('a'))).unwrap();
    app.apply_event(key(KeyCode::Enter)).unwrap();
    assert_eq!(app.counter(), 2);
    assert!(app.is_running());
    app.apply_event(AppEvent::Tick).unwrap();
    app.apply_event(AppEvent::Resize(80, 24)).unwrap();
    assert_eq!(app.counter(), 2);
}

#[test]
fn escape_stops_and_later_events_are_ignored() {
    let mut app = App::new();
    let mut q = EventQueue::new();
    q.push(key(KeyCode::Char('a')));
    q.push(key(KeyCode::Esc));
    q.push(key(KeyCode::Char('b')));
    q.push(AppEvent::UpdateCanvas("ZZ".to_string()));
    app.apply_events(&mut q).unwrap();
    assert!(!app.is_running());
    // only the press before the escape was applied
    assert_eq!(app.counter(), 1);
    // the canvas update enqueued after the stop was never applied
    assert_eq!(app.canvas.width(), 20);
    assert_eq!(app.canvas.height(), 10);
}

#[test]
fn quit_event_stops_the_session() {
    let mut app = App::new();
    app.apply_event(AppEvent::Quit).unwrap();
    assert!(!app.is_running());
}

#[test]
fn new_app_starts_with_blank_canvas() {
    let app = App::new();
    assert!(app.is_running());
    assert_eq!(app.counter(), 0);
    assert_eq!(app.canvas.width(), 20);
    assert_eq!(app.canvas.height(), 10);
    assert_eq!(app.canvas.base().get(0, 0).ch, ' ');
}

#[test]
fn poll_timeout_tracks_the_tick_interval() {
    // mid-interval, wait for the remainder
    assert_eq!(poll_timeout(33, 10), 23);
    // the interval has just elapsed: a fresh full wait
    assert_eq!(poll_timeout(33, 33), 0);
    assert_eq!(poll_timeout(33, 50), 33);
    assert!(!tick_due(33, 32));
    assert!(tick_due(33, 33));
    assert!(tick_due(33, 100));
}
