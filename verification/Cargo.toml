[package]
name = "smart_horizoker"
version = "0.1.0"
edition = "2021"
publish = false

[dependencies]
anyhow = { version = "1", default-features = false, features = ["std"] }
bollard = "=0.17.1"
chrono = { version = "=0.4.45", default-features = false, features = ["std", "clock"] }
eframe = { version = "=0.29.1", default-features = false, features = ["default_fonts", "glow", "x11"] }
futures-util = { version = "0.3", default-features = false, features = ["std"] }
serde = { version = "1", features = ["derive"] }
serde_yaml = "0.9"
tokio = { version = "1", default-features = false, features = ["macros", "rt-multi-thread"] }
walkdir = "2"
