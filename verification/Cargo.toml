[package]
name = "creatura"
version = "0.1.0"
edition = "2021"
publish = false

[dependencies]
avian3d = { version = "=0.4.1", default-features = false, features = ["3d", "f32", "parry-f32", "default-collider"] }
bevy = { version = "=0.17.3", default-features = false, features = ["std"] }
clap = { version = "=4.6.7", features = ["derive"] }
petgraph = { version = "=0.8.3", features = ["serde-1"] }
rand = "=0.9.5"
serde = { version = "=1.0.229", features = ["derive"] }
serde_json = "=1.0.154"
