use ray_marcher::input::key::{ElementState, Key, NamedKey};
use ray_marcher::input::keyboard_state::KeyboardState;
use ray_marcher::stats::StatTracker;
use ray_marcher::window_events::{handle_window_event, surface_size, EventResponse, WindowEvent};

const NOTHING: EventResponse = EventResponse { exit: false, resize: None, redraw: false };

#[test]
fn window_events() {
    let mut kb = KeyboardState::new();
    assert_eq!(
        handle_window_event(&mut kb, WindowEvent::Resized { width: 640, height: 0 }),
        EventResponse { resize: Some((640, 0)), ..NOTHING }
    );
    assert_eq!(
        handle_window_event(&mut kb, WindowEvent::CloseRequested),
        EventResponse { exit: true, ..NOTHING }
    );
    assert_eq!(
        handle_window_event(&mut kb, WindowEvent::RedrawRequested),
        EventResponse { redraw: true, ..NOTHING }
    );
    assert_eq!(handle_window_event(&mut kb, WindowEvent::Other), NOTHING);
    let w = Key::Character('w');
    assert_eq!(
        handle_window_event(&mut kb, WindowEvent::KeyboardInput { key: w, state: ElementState::Pressed }),
        NOTHING
    );
    assert!(kb.is_down(w));
    let esc = Key::Named(NamedKey::Escape);
    assert_eq!(
        handle_window_event(&mut kb, WindowEvent::KeyboardInput { key: esc, state: ElementState::Pressed }),
        EventResponse { exit: true, ..NOTHING }
    );
    assert!(kb.is_down(esc));
    assert!(kb.is_down(w));
}

#[test]
fn surface_sizes() {
    assert_eq!(surface_size(0, 0), (1, 1));
    assert_eq!(surface_size(800, 0), (800, 1));
    assert_eq!(surface_size(1920, 1080), (1920, 1080));
}

#[test]
fn stat_rows() {
    let mut stats = StatTracker::new();
    let fps = stats.new_stat("fps".to_string());
    let mem = stats.new_stat("memory".to_string());
    assert_eq!(fps.index(), 0);
    assert_eq!(mem.index(), 1);
    assert_eq!(stats.row(&fps), ("fps".to_string(), String::new()));
    stats.update(&mem, "12 MB".to_string());
    stats.update(&fps, "60".to_string());
    stats.update(&fps, "59".to_string());
    assert_eq!(stats.row(&fps), ("fps".to_string(), "59".to_string()));
    assert_eq!(stats.row(&mem), ("memory".to_string(), "12 MB".to_string()));
}
