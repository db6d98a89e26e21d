[package]
name = "loaded_chunks"
version = "0.1.0"
edition = "2021"
publish = false

[dependencies]
bevy_ecs = "=0.11.3"
parking_lot = "=0.12.5"
rustc-hash = "=1.1.0"
valence_nbt = "=0.6.1"
valence_protocol = { version = "=0.2.0-alpha.1", features = ["compression", "encryption"] }
valence_registry = "=0.2.0-alpha.1"
