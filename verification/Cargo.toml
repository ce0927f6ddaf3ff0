[package]
name = "elevator_orders"
version = "0.1.0"
edition = "2021"
publish = false

[dependencies]
uhlc = "0.8"
uuid = { version = "1", features = ["v4"] }
crossbeam-channel = "0.5"
log = "0.4"
serde = { version = "1", features = ["derive"] }
toml = "0.8"
