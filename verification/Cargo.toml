[package]
name = "codex_rollback_bridge"
version = "0.1.0"
edition = "2021"
publish = false

[dependencies]
chrono = { version = "0.4", default-features = false, features = ["std", "clock"] }
serde = { version = "1", features = ["derive"] }
serde_json = "1"
eframe = { version = "*", default-features = false, features = ["default_fonts", "glow", "x11"] }
rfd = { version = "*", default-features = false, features = ["xdg-portal", "tokio"] }
