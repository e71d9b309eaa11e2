[package]
name = "live_data_processor"
version = "0.1.0"
edition = "2021"
publish = false

[dependencies]
dotenv = "*"
lazy_static = "*"
mysql = { version = "*", default-features = false, features = ["minimal"] }
reqwest = { version = "*", default-features = false, features = ["blocking"] }
serde = { version = "*", features = ["derive"] }
serde_json = "*"
zmq = "*"
