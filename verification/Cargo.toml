[package]
name = "crabtrack"
version = "0.1.0"
edition = "2021"
publish = false

[dependencies]
sgp4 = "*"
chrono = "*"
nalgebra = "*"
serde = { version = "*", features = ["derive"] }
toml = "*"
