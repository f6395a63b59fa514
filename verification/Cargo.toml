[package]
name = "expiration_date"
version = "0.1.0"
edition = "2021"
publish = false

[dependencies]
chrono = "=0.4.45"
positive = "=0.6.1"
rust_decimal = "=1.43.0"
serde = "=1.0.229"
thiserror = "=2.0.21"

[dev-dependencies]
serde_json = "=1.0.154"
