[package]
name = "rusty_boy"
version = "0.1.0"
edition = "2021"
publish = false

[dependencies]
eframe = { version = "=0.22.0", default-features = false, features = ["glow", "default_fonts"] }
egui = "=0.22.0"
epaint = "=0.22.0"
rfd = "0.11"
serde = { version = "1", features = ["derive"] }
bincode = "1.3"
