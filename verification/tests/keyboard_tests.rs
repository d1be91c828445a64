use emerge_input::event::{InputEvent, KeyCode, Transition};
use emerge_input::keyboard::KeyboardManager;

fn key_a() -> KeyCode {
    KeyCode(65)
}

fn key_b() -> KeyCode {
    KeyCode(66)
}

fn press(key: KeyCode) -> InputEvent {
    InputEvent::Key { key, state: Transition::Pressed }
}

fn release(key: KeyCode) -> InputEvent {
    InputEvent::Key { key, state: Transition::Released }
}

#[test]
fn press_marks_just_pressed_not_held() {
    let mut kb = KeyboardManager::new();
    kb.handle_event(&press(key_a()), 0);
    assert!(kb.is_key_just_pressed(key_a()));
    assert!(!kb.is_key_held(key_a(), 0));
    assert!(!kb.is_key_just_released(key_a()));
    assert!(!kb.is_key_just_pressed(key_b()));
}

#[test]
fn held_after_debounce_elapsed() {
    let mut kb = KeyboardManager::new();
    kb.handle_event(&press(key_a()), 0);
    assert!(!kb.is_key_held(key_a(), 99));
    assert!(kb.is_key_held(key_a(), 100));
    assert!(kb.is_key_held(key_a(), 110));
}

#[test]
fn release_marks_just_released() {
    let mut kb = KeyboardManager::new();
    kb.handle_event(&press(key_a()), 0);
    kb.handle_event(&release(key_a()), 110);
    assert!(kb.is_key_just_released(key_a()));
    assert!(!kb.is_key_held(key_a(), 110));
    assert!(!kb.is_key_held(key_a(), 500));
}

#[test]
fn end_frame_clears_one_shot_state() {
    let mut kb = KeyboardManager::new();
    kb.handle_event(&press(key_a()), 0);
    kb.handle_event(&press(key_b()), 1);
    kb.handle_event(&release(key_b()), 2);
    kb.end_frame();
    assert!(!kb.is_key_just_pressed(key_a()));
    assert!(!kb.is_key_just_pressed(key_b()));
    assert!(!kb.is_key_just_released(key_b()));
    assert_eq!(kb.get_events().len(), 0);
    // Held state persists across the frame boundary.
    assert!(kb.is_key_held(key_a(), 150));
}

#[test]
fn focus_loss_clears_held_state() {
    let mut kb = KeyboardManager::new();
    kb.handle_event(&press(key_a()), 0);
    kb.handle_event(&press(key_b()), 1);
    kb.handle_event(&InputEvent::FocusLost, 5);
    assert!(!kb.is_key_held(key_a(), 200));
    assert!(!kb.is_key_held(key_b(), 200));
    assert!(!kb.is_key_just_pressed(key_a()));
    assert!(!kb.is_key_just_released(key_a()));
    assert_eq!(kb.get_events().len(), 0);
}

#[test]
fn fresh_press_after_focus_loss() {
    let mut kb = KeyboardManager::new();
    kb.handle_event(&press(key_a()), 0);
    kb.handle_event(&InputEvent::FocusLost, 5);
    kb.handle_event(&press(key_a()), 10);
    assert!(kb.is_key_just_pressed(key_a()));
    assert!(!kb.get_events()[0].repeat);
}

#[test]
fn repeat_press_within_window() {
    let mut kb = KeyboardManager::new();
    kb.handle_event(&press(key_a()), 0);
    kb.end_frame();
    assert!(kb.is_key_repeat(key_a(), 30));
    kb.handle_event(&press(key_a()), 30);
    // An auto-repeat refreshes the held stamp but is not a fresh press.
    assert!(!kb.is_key_just_pressed(key_a()));
    let events = kb.get_events();
    assert_eq!(events.len(), 1);
    assert!(events[0].repeat);
    assert_eq!(events[0].key_code, key_a());
}

#[test]
fn fresh_press_after_repeat_window() {
    let mut kb = KeyboardManager::new();
    kb.handle_event(&press(key_a()), 0);
    kb.end_frame();
    assert!(!kb.is_key_repeat(key_a(), 60));
    kb.handle_event(&press(key_a()), 60);
    assert!(kb.is_key_just_pressed(key_a()));
    assert!(!kb.get_events()[0].repeat);
}

#[test]
fn event_log_keeps_arrival_order() {
    let mut kb = KeyboardManager::new();
    kb.handle_event(&press(key_a()), 0);
    kb.handle_event(&press(key_b()), 1);
    kb.handle_event(&release(key_a()), 2);
    let events = kb.get_events();
    assert_eq!(events.len(), 3);
    assert_eq!(events[0].key_code, key_a());
    assert_eq!(events[0].state, Transition::Pressed);
    assert_eq!(events[1].key_code, key_b());
    assert_eq!(events[1].state, Transition::Pressed);
    assert_eq!(events[2].key_code, key_a());
    assert_eq!(events[2].state, Transition::Released);
    assert!(events.iter().all(|e| e.text.is_none()));
}

#[test]
fn unrelated_events_leave_keyboard_unchanged() {
    let mut kb = KeyboardManager::new();
    kb.handle_event(&press(key_a()), 0);
    kb.handle_event(&InputEvent::CursorMoved { x: 3, y: 4 }, 1);
    kb.handle_event(&InputEvent::Scroll { dx: 1, dy: 1 }, 2);
    kb.handle_event(&InputEvent::Ignored, 3);
    assert!(kb.is_key_just_pressed(key_a()));
    assert_eq!(kb.get_events().len(), 1);
    assert!(kb.is_key_held(key_a(), 100));
}

#[test]
fn new_keyboard_tracker_starts_empty() {
    let kb = KeyboardManager::new();
    assert!(!kb.is_key_just_pressed(key_a()));
    assert!(!kb.is_key_held(key_a(), 1_000_000));
    assert!(!kb.is_key_just_released(key_a()));
    assert!(!kb.is_key_repeat(key_a(), 0));
    assert_eq!(kb.get_events().len(), 0);
}
