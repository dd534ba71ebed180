[package]
name = "luatools"
version = "0.1.0"
edition = "2021"
publish = false

[dependencies]
chrono = "0.4"
serde = { version = "1", features = ["derive"] }
serde_json = "1"
serialport = { version = "4", default-features = false }
tempfile = "3"
zip = { version = "2", default-features = false, features = ["deflate"] }
