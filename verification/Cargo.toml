[package]
name = "neobirth"
version = "0.2.0"
edition = "2021"
publish = false

[dependencies]
cortex-m = "=0.5.11"
cortex-m-rt = "=0.6.15"
panic-halt = "=0.2.0"
smart-leds = "=0.1.0"
trellis_m4 = "=0.1.2"
