use engine::camera::controls::{ControlState, Key, MouseButton, MouseState, A, D, J, S, W, WASDJ};
use engine::camera::projection::{toggled_free_look, Projection};

#[test]
fn mouse_state_just_pressed_once() {
    let mut m = MouseState::new();
    assert!(!m.is_down && !m.just_pressed);
    m.update(true);
    assert!(m.is_down && m.just_pressed);
    m.update(true);
    assert!(m.is_down && !m.just_pressed);
    m.update(false);
    assert!(!m.is_down && !m.just_pressed);
}

#[test]
fn movement_keys_set_flags() {
    let mut c = ControlState::new();
    assert!(c.process_key(Key::W, true));
    assert!(c.process_key(Key::D, true));
    assert!(c.process_key(Key::Space, true));
    assert!(!c.process_key(Key::L, true));
    assert!(!c.process_key(Key::Other, true));
    let flags = c.inputs();
    assert_eq!(flags, [true, false, false, true, true]);
    assert!(flags[W] && flags[D] && flags[J] && !flags[A] && !flags[S]);
    assert_eq!(WASDJ, [0, 1, 2, 3, 4]);
    assert!(c.process_key(Key::W, false));
    assert_eq!(c.inputs(), [false, false, false, true, true]);
    assert!(c.process_key(Key::A, true));
    assert!(c.process_key(Key::S, true));
    assert_eq!(c.inputs(), [false, true, true, true, true]);
}

#[test]
fn mouse_buttons_tracked() {
    let mut c = ControlState::new();
    assert!(c.process_mouse_button(MouseButton::Left, true));
    assert_eq!(c.mouse_state_is_down(), (true, false));
    assert_eq!(c.mouse_just_pressed(), (true, false));
    assert!(c.process_mouse_button(MouseButton::Right, true));
    assert_eq!(c.mouse_state_is_down(), (true, true));
    assert_eq!(c.mouse_just_pressed(), (true, true));
    assert!(c.process_mouse_button(MouseButton::Left, true));
    assert_eq!(c.mouse_just_pressed(), (false, true));
    assert!(!c.process_mouse_button(MouseButton::Other, false));
    assert_eq!(c.mouse_state_is_down(), (true, true));
}

#[test]
fn projection_cycles() {
    let p = Projection::FirstPerson;
    assert_eq!(p.next(), Projection::ThirdPerson);
    assert_eq!(p.next().next(), Projection::Orthographic);
    assert_eq!(p.next().next().next(), Projection::FirstPerson);
    assert!(p.is_perspective());
    assert!(Projection::ThirdPerson.is_perspective());
    assert!(!Projection::Orthographic.is_perspective());
}

#[test]
fn projection_switches_on_m_press() {
    let p = Projection::ThirdPerson;
    assert_eq!(p.process(Key::M, true, false), Some(Projection::Orthographic));
    assert_eq!(p.process(Key::M, true, true), None);
    assert_eq!(p.process(Key::M, false, false), None);
    assert_eq!(p.process(Key::W, true, false), None);
}

#[test]
fn free_look_toggles_on_l_press() {
    assert!(toggled_free_look(false, Key::L, true, false));
    assert!(!toggled_free_look(true, Key::L, true, false));
    assert!(toggled_free_look(true, Key::L, true, true));
    assert!(!toggled_free_look(false, Key::L, false, false));
    assert!(!toggled_free_look(false, Key::M, true, false));
}
