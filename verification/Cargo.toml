[package]
name = "solyan-airplay"
version = "0.1.0"
edition = "2021"
publish = false

[dependencies]
anyhow = "1"
base64 = "0.22"
crossbeam-channel = "0.5"
eframe = { version = "0.37.0", default-features = false, features = ["glow", "x11", "default_fonts", "persistence"] }
serde = { version = "1", features = ["derive"] }
tokio = { version = "1", features = ["rt-multi-thread", "macros", "time", "sync"] }
tracing = "0.1"
tracing-subscriber = { version = "0.3", features = ["env-filter"] }
