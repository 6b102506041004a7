//! Keyboard and mouse state, as plain values, fed by the window's events.

pub mod input_tracker;
pub mod key;
pub mod keyboard_state;
pub mod keys_pressed;
pub mod mouse;
