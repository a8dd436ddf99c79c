[package]
name = "motor_math"
version = "0.1.0"
edition = "2021"

[dependencies]
anyhow = "1"
csv = "1"
nalgebra = "*"
num-dual = "*"
serde = { version = "1", features = ["derive"] }
toml = "*"
