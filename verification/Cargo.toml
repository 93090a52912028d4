[package]
name = "aperture"
version = "0.1.0"
edition = "2021"
publish = false

[dependencies]
anyhow = "1"
bytemuck = { version = "1", features = ["derive"] }
dirs = "5"
egui = "0.29"
egui-wgpu = { version = "0.29", default-features = false }
lru = "0.12"
notify = "6"
parking_lot = "0.12"
pollster = "0.3"
raw-window-handle = "0.6"
rusqlite = { version = "0.32", features = ["bundled"] }
serde = { version = "1", features = ["derive"] }
serde_json = "1"
tokio = { version = "1", features = ["rt-multi-thread", "sync"] }
tracing = "0.1"
tracing-subscriber = { version = "0.3", features = ["env-filter"] }
wgpu = { version = "22", default-features = false, features = ["wgsl"] }
