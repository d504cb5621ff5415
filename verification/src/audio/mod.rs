//! Audio synthesis types shared with the firmware's signal chain.

pub mod oscillator;
