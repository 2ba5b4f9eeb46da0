[package]
name = "modular_game_engine"
version = "0.1.0"
edition = "2021"
publish = false

[dependencies]
specs = "*"
rand = "0.8"
nalgebra = "*"
serde = { version = "1", features = ["derive"] }
