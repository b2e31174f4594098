[package]
name = "piano_sight_reading"
version = "0.1.0"
edition = "2021"
publish = false

[dependencies]
eframe = { version = "0.29", default-features = false }
egui = { version = "0.29", default-features = false }
egui_extras = { version = "0.29", default-features = false }
env_logger = { version = "0.11", default-features = false }
log = "0.4"
midir = "0.10"
midly = "=0.5.3"
serde = { version = "1", features = ["derive"] }
