[package]
name = "ict_strategy"
version = "0.1.0"
edition = "2021"
publish = false

[dependencies]
barter-instrument = "=0.3.3"
chrono = "=0.4.45"
rust_decimal = "=1.43.0"
serde = { version = "=1.0.229", features = ["derive"] }
