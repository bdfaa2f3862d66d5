//! What the operations promise, whatever they are asked with.
//!
//! Each law speaks of calls: of what a call was given, of what it gave back, and
//! of the application before it and after it.

pub mod edit;
pub mod midi;
pub mod player;
pub mod playlist;
pub mod ports;
pub mod screen;
pub mod settings;
pub mod stored;
pub mod text;
pub mod tracks;
pub mod transport;
