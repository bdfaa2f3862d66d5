//! The state and the rules of clickinaresi, an audio player for live performance.
//!
//! The window, the audio output, the MIDI connection and the files are driven by
//! the caller: the library decides what is to be done with them, takes what came
//! of it, and says what is shown.

pub mod action;
pub mod app;
pub mod edit;
pub mod json;
pub mod laws;
pub mod midi;
pub mod order;
pub mod paths;
pub mod player;
pub mod playlist;
pub mod ports;
pub mod scan;
pub mod screen;
pub mod settings;
pub mod stored;
pub mod text;
pub mod transport;
