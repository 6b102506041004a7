//! Frame timing, input state and GPU-buffer layout logic of a ray-marching renderer.

pub mod signed_distance_field;
pub mod text;
pub mod frame_timer;
pub mod input;
pub mod light_buffers;
pub mod scene_descriptor;
pub mod stats;
pub mod window_events;
