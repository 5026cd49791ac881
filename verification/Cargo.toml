[package]
name = "swiftbeaverlodge"
version = "0.1.0"
edition = "2021"
publish = false

[dependencies]
serde = { version = "1", features = ["derive"] }
serde_json = "1"
chrono = "0.4"
rand = "0.8"
which = "7"
anyhow = "1"
tracing = "0.1"
tracing-subscriber = { version = "0.3", features = ["env-filter"] }
libc = "0.2"
eframe = { version = "0.31", default-features = false, features = ["glow", "x11", "default_fonts"] }
egui = { version = "0.31", default-features = false, features = ["default_fonts"] }
parquet = { version = "54", default-features = false, features = ["arrow"] }
arrow = { version = "54", default-features = false }
