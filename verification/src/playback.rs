//! Playback through an external player process.
pub mod player;
