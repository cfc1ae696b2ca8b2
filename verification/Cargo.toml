[package]
name = "bad_north_save_modifier"
version = "0.1.0"
edition = "2021"
publish = false

[dependencies]
serde = { version = "1", features = ["derive"] }
serde_json = "1"
anyhow = "1"
log = "0.4"
env_logger = { version = "0.10", default-features = false }
eframe = { version = "0.24", default-features = false, features = ["glow", "x11", "default_fonts"] }
rfd = { version = "0.12", default-features = false, features = ["xdg-portal"] }
