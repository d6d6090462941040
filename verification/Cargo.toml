[package]
name = "platformer_shared"
version = "0.1.0"
edition = "2021"
publish = false

[dependencies]
rapier2d = { version = "=0.11.3", features = ["serde-serialize"] }
serde = { version = "=1.0.229", features = ["derive"] }
crystalorb = "=0.2.1"
crystalorb-bevy-networking-turbulence = "=0.2.1"
bevy = { version = "=0.5.0", default-features = false, features = ["render"] }
