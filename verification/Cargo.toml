[package]
name = "synth_core"
version = "0.1.0"
edition = "2021"
publish = false

[dependencies]
rand = "0.8"
vst = "0.3"
raw-window-handle = "0.5"
