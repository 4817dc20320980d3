[package]
name = "expenses_tracking"
version = "0.1.0"
edition = "2021"
publish = false

[dependencies]
chrono = "=0.4.45"
csv = "=1.4.0"
eframe = { version = "0.31", default-features = false, features = ["default_fonts", "glow", "x11"] }
egui_extras = { version = "0.31", default-features = false }
env_logger = "=0.11.11"
log = "=0.4.34"
serde = { version = "=1.0.229", features = ["derive"] }
serde_json = "=1.0.154"
