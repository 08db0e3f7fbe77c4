[package]
name = "rsonance"
version = "0.1.0"
edition = "2021"
publish = false

[dependencies]
eframe = { version = "=0.21.3", default-features = false, features = ["glow"] }
egui = "=0.21.0"
