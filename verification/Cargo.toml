[package]
name = "exercises"
version = "0.1.0"
edition = "2021"
publish = false

[dependencies]
anyhow = "1"
chrono = { version = "0.4", default-features = false, features = ["now"] }
colored = "2"
rand = "0.8"
sha2 = "0.10"
structopt = "0.3"
uuid = { version = "1", features = ["v4"] }
