//! Verified core of a TB-303 style acid synthesizer for the NeoTrellis M4.
//!
//! The library holds the step sequencer (pattern storage, playback
//! advancement), the keypad edge detector and pattern editor, and the
//! LED display logic. The floating point signal chain and the hardware
//! drivers live in the firmware around it.

pub mod audio;
pub mod colors;
pub mod sequencer;
pub mod ui;
