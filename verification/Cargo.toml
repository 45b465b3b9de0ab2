[package]
name = "hicom"
version = "0.1.0"
edition = "2021"
publish = false

[dependencies]
eframe = { version = "0.31", default-features = false, features = ["glow", "x11", "default_fonts"] }
egui = "0.31"
serialport = { version = "4", default-features = false }
