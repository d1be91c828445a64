use emerge_input::event::{InputEvent, Transition};
use emerge_input::mouse::{MouseButton, MouseManager};

fn press(button: MouseButton) -> InputEvent {
    InputEvent::Button { button, state: Transition::Pressed }
}

fn release(button: MouseButton) -> InputEvent {
    InputEvent::Button { button, state: Transition::Released }
}

#[test]
fn cursor_motion_accumulates_and_resets() {
    let mut m = MouseManager::new();
    m.handle_event(&InputEvent::CursorMoved { x: 5, y: 5 }, 0);
    m.handle_event(&InputEvent::CursorMoved { x: 5, y: 5 }, 1);
    assert_eq!(m.get_accumulated_motion(), (5, 5));
    m.end_frame();
    assert_eq!(m.get_accumulated_motion(), (0, 0));
    // The cursor position is absolute, not transient.
    assert_eq!(m.get_cursor_position(), (5, 5));
}

#[test]
fn motion_sums_consecutive_deltas() {
    let mut m = MouseManager::new();
    m.update_cursor_position((1, 2));
    m.update_cursor_position((3, 5));
    m.update_cursor_position((-4, -4));
    // (1-0, 2-0) + (3-1, 5-2) + (-4-3, -4-5) telescopes to (-4, -4).
    assert_eq!(m.get_accumulated_motion(), (-4, -4));
    assert_eq!(m.get_cursor_position(), (-4, -4));
    m.update_cursor_position((0, 0));
    assert_eq!(m.get_accumulated_motion(), (0, 0));
}

#[test]
fn scroll_accumulates_and_logs_wheel_events() {
    let mut m = MouseManager::new();
    m.handle_event(&InputEvent::Scroll { dx: 1, dy: 0 }, 0);
    m.handle_event(&InputEvent::Scroll { dx: 0, dy: 2 }, 1);
    assert_eq!(m.get_accumulated_scroll(), (1, 2));
    let wheel = m.get_wheel_events();
    assert_eq!(wheel.len(), 2);
    assert_eq!(wheel[0].delta, (1, 0));
    assert_eq!(wheel[1].delta, (0, 2));
    m.end_frame();
    assert_eq!(m.get_accumulated_scroll(), (0, 0));
    assert_eq!(m.get_wheel_events().len(), 0);
}

#[test]
fn button_press_hold_release_cycle() {
    let mut m = MouseManager::new();
    m.handle_event(&press(MouseButton::Left), 0);
    assert!(m.is_button_just_pressed(MouseButton::Left));
    assert!(!m.is_button_held(MouseButton::Left, 0));
    assert!(!m.is_button_held(MouseButton::Left, 99));
    assert!(m.is_button_held(MouseButton::Left, 100));
    m.handle_event(&release(MouseButton::Left), 150);
    assert!(m.is_button_just_released(MouseButton::Left));
    assert!(!m.is_button_held(MouseButton::Left, 150));
}

#[test]
fn repeat_is_presence_based() {
    let mut m = MouseManager::new();
    m.handle_event(&press(MouseButton::Left), 0);
    m.end_frame();
    // However much later the second press arrives, the button is still down,
    // so it counts as a repeat and sets no fresh just-pressed mark.
    m.handle_event(&press(MouseButton::Left), 500);
    assert!(!m.is_button_just_pressed(MouseButton::Left));
    let events = m.get_events();
    assert_eq!(events.len(), 1);
    assert!(events[0].repeat);
}

#[test]
fn buttons_are_tracked_separately() {
    let mut m = MouseManager::new();
    m.handle_event(&press(MouseButton::Other(5)), 0);
    assert!(m.is_button_just_pressed(MouseButton::Other(5)));
    assert!(!m.is_button_just_pressed(MouseButton::Other(6)));
    assert!(!m.is_button_just_pressed(MouseButton::Left));
    m.handle_event(&press(MouseButton::Right), 1);
    m.handle_event(&release(MouseButton::Other(5)), 2);
    assert!(m.is_button_just_released(MouseButton::Other(5)));
    assert!(!m.is_button_just_released(MouseButton::Right));
    assert!(m.is_button_held(MouseButton::Right, 200));
    assert!(!m.is_button_held(MouseButton::Other(5), 200));
}

#[test]
fn event_log_records_button_transitions() {
    let mut m = MouseManager::new();
    m.handle_event(&press(MouseButton::Middle), 0);
    m.handle_event(&release(MouseButton::Middle), 10);
    let events = m.get_events();
    assert_eq!(events.len(), 2);
    assert_eq!(events[0].button, MouseButton::Middle);
    assert_eq!(events[0].state, Transition::Pressed);
    assert!(!events[0].repeat);
    assert_eq!(events[1].button, MouseButton::Middle);
    assert_eq!(events[1].state, Transition::Released);
    m.end_frame();
    assert_eq!(m.get_events().len(), 0);
}

#[test]
fn focus_loss_clears_mouse_state() {
    let mut m = MouseManager::new();
    m.handle_event(&InputEvent::CursorMoved { x: 7, y: 9 }, 0);
    m.handle_event(&press(MouseButton::Left), 1);
    m.handle_event(&InputEvent::Scroll { dx: 2, dy: 3 }, 2);
    m.handle_event(&InputEvent::FocusLost, 5);
    // A button held across a focus loss is forgotten, with no release event.
    assert!(!m.is_button_just_pressed(MouseButton::Left));
    assert!(!m.is_button_held(MouseButton::Left, 150));
    assert!(!m.is_button_just_released(MouseButton::Left));
    assert_eq!(m.get_events().len(), 0);
    assert_eq!(m.get_wheel_events().len(), 0);
    assert_eq!(m.get_accumulated_motion(), (0, 0));
    assert_eq!(m.get_accumulated_scroll(), (0, 0));
    // The cursor position is absolute and survives the reset.
    assert_eq!(m.get_cursor_position(), (7, 9));
}

#[test]
fn fresh_press_after_mouse_focus_loss() {
    let mut m = MouseManager::new();
    m.handle_event(&press(MouseButton::Left), 0);
    m.handle_event(&InputEvent::FocusLost, 5);
    m.handle_event(&press(MouseButton::Left), 10);
    assert!(m.is_button_just_pressed(MouseButton::Left));
    assert!(!m.get_events()[0].repeat);
}

#[test]
fn new_mouse_tracker_starts_empty() {
    let m = MouseManager::new();
    assert!(!m.is_button_just_pressed(MouseButton::Left));
    assert!(!m.is_button_held(MouseButton::Left, 1_000_000));
    assert!(!m.is_button_just_released(MouseButton::Left));
    assert_eq!(m.get_cursor_position(), (0, 0));
    assert_eq!(m.get_accumulated_motion(), (0, 0));
    assert_eq!(m.get_accumulated_scroll(), (0, 0));
    assert_eq!(m.get_events().len(), 0);
    assert_eq!(m.get_wheel_events().len(), 0);
}
