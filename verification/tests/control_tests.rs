use breakout::control::{ControlState, ElementState, MouseButton};

#[test]
fn fresh_control_state_has_not_clicked() {
    let c = ControlState::new();
    assert!(!c.clicked());
    assert_eq!(c.mouse_coords(), (0, 0));
}

#[test]
fn click_needs_release_at_or_after_press() {
    let mut c = ControlState::new();
    c.on_mouse_input(1, ElementState::Pressed, MouseButton::Left);
    assert!(!c.clicked());
    c.on_mouse_input(2, ElementState::Released, MouseButton::Left);
    assert!(c.clicked());
    // a fresh press moves the press stamp past the release: no longer clicked
    c.on_mouse_input(3, ElementState::Pressed, MouseButton::Left);
    assert!(!c.clicked());
    c.on_mouse_input(4, ElementState::Released, MouseButton::Left);
    assert!(c.clicked());
}

#[test]
fn press_and_release_on_the_same_frame_count_as_click() {
    let mut c = ControlState::new();
    c.on_mouse_input(7, ElementState::Pressed, MouseButton::Left);
    c.on_mouse_input(7, ElementState::Released, MouseButton::Left);
    assert!(c.clicked());
}

#[test]
fn other_buttons_are_ignored() {
    let mut c = ControlState::new();
    c.on_mouse_input(1, ElementState::Pressed, MouseButton::Right);
    c.on_mouse_input(2, ElementState::Released, MouseButton::Middle);
    c.on_mouse_input(3, ElementState::Released, MouseButton::Other);
    assert!(!c.clicked());
}

#[test]
fn cursor_normalized_in_square_window() {
    let mut c = ControlState::new();
    c.on_cursor_moved(1_000, 1_000, 750, 250);
    assert_eq!(c.mouse_coords(), (5_000, -5_000));
}

#[test]
fn cursor_corrected_for_wide_window() {
    let mut c = ControlState::new();
    // twice as wide as high: the x axis is stretched by the aspect ratio
    c.on_cursor_moved(2_000, 1_000, 1_500, 500);
    assert_eq!(c.mouse_coords(), (10_000, 0));
}

#[test]
fn cursor_corrected_for_tall_window() {
    let mut c = ControlState::new();
    c.on_cursor_moved(1_000, 2_000, 500, 1_500);
    assert_eq!(c.mouse_coords(), (0, 10_000));
}
