[package]
name = "makerpnp"
version = "0.1.0"
edition = "2021"
publish = false

[dependencies]
byteorder = "=1.5.0"
serde = { version = "=1.0.229", features = ["derive"] }
chrono = { version = "=0.4.45", default-features = false, features = ["std", "clock", "serde"] }
embedded-hal = "1"
