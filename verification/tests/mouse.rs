use jlr_mandelbrot::mouse::MouseInfo;

#[test]
fn fresh_mouse_reports_nothing() {
    let m = MouseInfo::new();
    assert!(!m.left_mouse_button_currently_pressed());
    assert!(!m.right_mouse_button_currently_pressed());
    assert!(!m.left_mouse_button_just_pressed());
    assert!(!m.right_mouse_button_just_pressed());
    assert!(!m.left_mouse_button_just_released());
    assert!(!m.right_mouse_button_just_released());
}

#[test]
fn press_is_edge_triggered() {
    let mut m = MouseInfo::new();
    m.set_left_mouse_button_pressed(true);
    assert!(m.left_mouse_button_currently_pressed());
    assert!(m.left_mouse_button_just_pressed());
    assert!(!m.left_mouse_button_just_released());
    // Holding the button down is no longer "just pressed".
    m.set_left_mouse_button_pressed(true);
    assert!(m.left_mouse_button_currently_pressed());
    assert!(!m.left_mouse_button_just_pressed());
}

#[test]
fn release_is_edge_triggered() {
    let mut m = MouseInfo::new();
    m.set_right_mouse_button_pressed(true);
    m.set_right_mouse_button_pressed(false);
    assert!(!m.right_mouse_button_currently_pressed());
    assert!(m.right_mouse_button_just_released());
    assert!(!m.right_mouse_button_just_pressed());
    // Staying released is no longer "just released".
    m.set_right_mouse_button_pressed(false);
    assert!(!m.right_mouse_button_just_released());
}

#[test]
fn buttons_are_latched_independently() {
    let mut m = MouseInfo::new();
    m.set_mouse_buttons_pressed(true, false);
    assert!(m.left_mouse_button_just_pressed());
    assert!(!m.right_mouse_button_just_pressed());
    m.set_mouse_buttons_pressed(false, true);
    assert!(m.left_mouse_button_just_released());
    assert!(m.right_mouse_button_just_pressed());
    assert!(!m.right_mouse_button_just_released());
}
