//! User interface: keypad editing and LED display.

pub mod controls;
pub mod leds;
