use ray_marcher::input::keys_pressed::KeysPressed;
use ray_marcher::input::input_tracker::{ButtonState, InputTracker};
use ray_marcher::input::key::{ElementState, Key, NamedKey};
use ray_marcher::input::keyboard_state::KeyboardState;
use ray_marcher::input::mouse::MouseHandler;

#[test]
fn keyboard_press_and_release() {
    let mut kb = KeyboardState::default();
    let w = Key::Character('w');
    assert!(!kb.is_down(w));
    kb.on_keyboard_button(w, ElementState::Pressed);
    assert!(kb.is_down(w));
    kb.on_keyboard_button(w, ElementState::Pressed);
    kb.on_keyboard_button(Key::Character('a'), ElementState::Pressed);
    kb.on_keyboard_button(w, ElementState::Released);
    assert!(!kb.is_down(w));
    assert!(kb.is_down(Key::Character('a')));
    kb.on_keyboard_button(Key::Character('z'), ElementState::Released);
    assert!(kb.is_down(Key::Character('a')));
}

#[test]
fn translation_axes() {
    let mut kb = KeyboardState::new();
    assert_eq!(kb.camera_translation_axes(), (0, 0, 0));
    kb.on_keyboard_button(Key::Character('d'), ElementState::Pressed);
    kb.on_keyboard_button(Key::Character('q'), ElementState::Pressed);
    kb.on_keyboard_button(Key::Character('w'), ElementState::Pressed);
    kb.on_keyboard_button(Key::Character('s'), ElementState::Pressed);
    assert_eq!(kb.camera_translation_axes(), (1, -1, 0));
    kb.on_keyboard_button(Key::Character('a'), ElementState::Pressed);
    kb.on_keyboard_button(Key::Character('e'), ElementState::Pressed);
    assert_eq!(kb.camera_translation_axes(), (0, 0, 0));
}

#[test]
fn rotation_axes() {
    let mut kb = KeyboardState::new();
    kb.on_keyboard_button(Key::Named(NamedKey::ArrowLeft), ElementState::Pressed);
    kb.on_keyboard_button(Key::Named(NamedKey::ArrowDown), ElementState::Pressed);
    assert_eq!(kb.camera_rotation_axes(), (-1, 1));
    kb.on_keyboard_button(Key::Named(NamedKey::ArrowLeft), ElementState::Released);
    kb.on_keyboard_button(Key::Named(NamedKey::ArrowRight), ElementState::Pressed);
    kb.on_keyboard_button(Key::Named(NamedKey::ArrowUp), ElementState::Pressed);
    assert_eq!(kb.camera_rotation_axes(), (1, 0));
}

#[test]
fn button_state_transitions() {
    let mut b = ButtonState::default();
    assert_eq!(b, ButtonState { pressed: false, released: false, down: false });
    b.apply(ElementState::Pressed);
    assert_eq!(b, ButtonState { pressed: true, released: false, down: true });
    b.apply(ElementState::Released);
    assert_eq!(b, ButtonState { pressed: true, released: true, down: false });
    b.update();
    assert_eq!(b, ButtonState { pressed: false, released: false, down: false });
    b.apply(ElementState::Pressed);
    b.update();
    assert_eq!(b, ButtonState { pressed: false, released: false, down: true });
}

#[test]
fn tracker_follows_each_key() {
    let mut t = InputTracker::default();
    let d = Key::Character('d');
    let esc = Key::Named(NamedKey::Escape);
    assert!(!t.is_down(d));
    t.on_keyboard_button(d, ElementState::Pressed);
    t.on_keyboard_button(esc, ElementState::Pressed);
    assert!(t.is_down(d));
    assert!(t.is_down(esc));
    t.on_keyboard_button(d, ElementState::Released);
    assert!(!t.is_down(d));
    assert!(t.is_down(esc));
    let mut t2 = InputTracker::new();
    t2.on_keyboard_button(Key::Unidentified, ElementState::Released);
    assert!(!t2.is_down(Key::Unidentified));
}

#[test]
fn mouse_motion_is_taken_once() {
    let mut m = MouseHandler::new();
    assert_eq!(m.movement(), (0, 0));
    m.record_movement(3, -4);
    m.record_movement(10, 1);
    assert_eq!(m.movement(), (13, -3));
    assert_eq!(m.movement(), (0, 0));
    m.record_movement(i32::MAX, i32::MIN);
    assert_eq!(m.movement(), (i32::MAX, i32::MIN));
}

#[test]
fn one_release_undoes_many_presses() {
    let mut kb = KeyboardState::new();
    let a = Key::Character('a');
    let w = Key::Character('w');
    kb.on_keyboard_button(a, ElementState::Pressed);
    for _ in 0..3 {
        kb.on_keyboard_button(w, ElementState::Pressed);
    }
    assert!(kb.is_down(w));
    kb.on_keyboard_button(w, ElementState::Released);
    assert!(!kb.is_down(w));
    assert!(kb.is_down(a));
}

#[test]
fn browser_key_names() {
    let mut keys = KeysPressed::new();
    assert!(!keys.is_down("w"));
    keys.insert("w".to_string());
    keys.insert("ArrowLeft".to_string());
    keys.insert("w".to_string());
    assert!(keys.is_down("w"));
    assert!(keys.is_down("ArrowLeft"));
    keys.remove(&"w".to_string());
    assert!(!keys.is_down("w"));
    assert!(keys.is_down("ArrowLeft"));
    keys.remove(&"Shift".to_string());
    assert!(keys.is_down("ArrowLeft"));
}
