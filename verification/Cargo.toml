[package]
name = "file_inspector"
version = "0.1.0"
edition = "2021"
publish = false

[dependencies]
chrono = "=0.4.45"
eframe = { version = "=0.37.0", default-features = false, features = ["default_fonts", "glow", "x11"] }
image = { version = "=0.25.10", default-features = false }
rfd = { version = "=0.17.2", default-features = false, features = ["xdg-portal"] }
rusqlite = { version = "=0.41.1", features = ["bundled"] }
serde = { version = "=1.0.229", features = ["derive"] }
serde_json = "=1.0.154"
sha256 = { version = "=1.6.0", default-features = false }
