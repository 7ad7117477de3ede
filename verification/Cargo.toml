[package]
name = "deskcalc"
version = "0.1.0"
edition = "2021"
publish = false

[dependencies]
itertools = "=0.14.0"
config = { version = "=0.14.1", default-features = false, features = ["toml"] }
directories = "=5.0.1"
eframe = { version = "=0.24.1", default-features = false, features = ["glow", "x11", "default_fonts"] }
egui = "=0.24.1"
