//! Glimpse: the logic of a rolling screen-and-audio clip recorder.

pub mod audio;
pub mod audio_ring;
pub mod capture;
pub mod clock;
pub mod encode;
pub mod hotkey;
pub mod launch;
pub mod layout;
pub mod log;
pub mod mux;
pub mod overlay;
pub mod paint;
pub mod segment_ring;
pub mod settings;
pub mod text;
pub mod tray;
pub mod wide;
