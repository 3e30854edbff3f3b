//! Core of an interactive magnified pixel picker.
//!
//! The library covers the logic of the picker: correlating per-monitor
//! screen captures with the monitor list, storing one decoded frame and one
//! packed render buffer per overlay window, compositing a live zoom
//! magnifier with a contrast grid under the cursor, clamped zoom controls,
//! the input-event state machine that drives redraws, and the final pixel
//! read-back.  Window creation, screen capture, surface presentation,
//! clipboard and terminal output live outside the library and talk to it
//! through plain values.

pub mod color;
pub mod config;
pub mod correlate;
pub mod frame;
pub mod machine;
pub mod magnifier;
pub mod picker;
pub mod video_mode;
