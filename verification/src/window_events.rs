//! What the application does with each window event, and the size of its drawing surface.
use vstd::prelude::*;

use crate::input::key::{ElementState, Key, NamedKey};
use crate::input::keyboard_state::KeyboardState;

verus! {

/// The window events the application reacts to.
#[derive(Clone, Copy, Debug, PartialEq, Eq)]
pub enum WindowEvent {
    /// The window's inner size changed to `width` × `height` pixels.
    Resized { width: u32, height: u32 },
    /// The user asked to close the window.
    CloseRequested,
    /// The window wants a new frame drawn.
    RedrawRequested,
    /// A key went down or came up.
    KeyboardInput { key: Key, state: ElementState },
    /// Any other event; it is ignored.
    Other,
}

/// What the application must do after an event, besides updating the keyboard state.
#[derive(Clone, Copy, Debug, PartialEq, Eq)]
pub struct EventResponse {
    /// Leave the event loop.
    pub exit: bool,
    /// Reconfigure the surface for this window size.
    pub resize: Option<(u32, u32)>,
    /// Draw a frame and ask the window for the next one.
    pub redraw: bool,
}

/// The response the application owes to `event`.
pub open spec fn response_to(event: WindowEvent) -> EventResponse {
    match event {
        WindowEvent::Resized { width, height } => EventResponse {
            exit: false,
            resize: Some((width, height)),
            redraw: false,
        },
        WindowEvent::CloseRequested => EventResponse { exit: true, resize: None, redraw: false },
        WindowEvent::RedrawRequested => EventResponse { exit: false, resize: None, redraw: true },
        WindowEvent::KeyboardInput { key, state } => EventResponse {
            exit: key == Key::Named(NamedKey::Escape),
            resize: None,
            redraw: false,
        },
        WindowEvent::Other => EventResponse { exit: false, resize: None, redraw: false },
    }
}

/// Only closing the window or the Escape key (pressed or released) asks to exit; only a
/// resize asks for a new surface size, the one the event gives; only a redraw request
/// asks for a frame.
pub proof fn lemma_event_responses(event: WindowEvent)
    ensures
        response_to(event).exit <==> (event == WindowEvent::CloseRequested || exists|state: ElementState|
            event == (WindowEvent::KeyboardInput { key: Key::Named(NamedKey::Escape), state })),
        forall|key: Key, state: ElementState|
            #[trigger] response_to(WindowEvent::KeyboardInput { key, state }).exit == (key == Key::Named(
                NamedKey::Escape,
            )),
        response_to(event).redraw == (event == WindowEvent::RedrawRequested),
        forall|width: u32, height: u32|
            #[trigger] response_to(WindowEvent::Resized { width, height }).resize == Some((width, height)),
        (event is Resized) || response_to(event).resize == None::<(u32, u32)>,
{
    if let WindowEvent::KeyboardInput { key, state } = event {
        if key == Key::Named(NamedKey::Escape) {
            assert(event == (WindowEvent::KeyboardInput { key: Key::Named(NamedKey::Escape), state }));
        }
    }
}

/// Handles one window event: a key event updates `keyboard` (Escape also asks to exit),
/// and the response says what else to do.
pub fn handle_window_event(keyboard: &mut KeyboardState, event: WindowEvent) -> (response:
    EventResponse)
    ensures
        response == response_to(event),
        response.exit == match event {
            WindowEvent::CloseRequested => true,
            WindowEvent::KeyboardInput { key, state } => key == Key::Named(NamedKey::Escape),
            _ => false,
        },
        response.redraw == (event == WindowEvent::RedrawRequested),
        response.resize == match event {
            WindowEvent::Resized { width, height } => Some((width, height)),
            _ => None::<(u32, u32)>,
        },
        final(keyboard)@ == match event {
            WindowEvent::KeyboardInput { key, state } => match state {
                ElementState::Pressed => old(keyboard)@.insert(key),
                ElementState::Released => old(keyboard)@.remove(key),
            },
            _ => old(keyboard)@,
        },
{
    match event {
        WindowEvent::Resized { width, height } => EventResponse {
            exit: false,
            resize: Some((width, height)),
            redraw: false,
        },
        WindowEvent::CloseRequested => EventResponse { exit: true, resize: None, redraw: false },
        WindowEvent::RedrawRequested => EventResponse { exit: false, resize: None, redraw: true },
        WindowEvent::KeyboardInput { key, state } => {
            let exit = match key {
                Key::Named(NamedKey::Escape) => true,
                _ => false,
            };
            keyboard.on_keyboard_button(key, state);
            EventResponse { exit, resize: None, redraw: false }
        },
        WindowEvent::Other => EventResponse { exit: false, resize: None, redraw: false },
    }
}

/// The surface size for a window of `width` × `height` pixels: each side at least one
/// pixel, since a surface cannot be empty.
pub fn surface_size(width: u32, height: u32) -> (size: (u32, u32))
    ensures
        size.0 == if width >= 1 { width } else { 1 },
        size.1 == if height >= 1 { height } else { 1 },
{
    let w = if width >= 1 { width } else { 1 };
    let h = if height >= 1 { height } else { 1 };
    (w, h)
}

} // verus!
