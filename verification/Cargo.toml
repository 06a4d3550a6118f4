[package]
name = "packet"
version = "0.1.0"
edition = "2021"
publish = false

[dependencies]
uuid = { version = "*", features = ["v4"] }
chrono = "*"
serde = { version = "*", features = ["derive"] }
serde_json = "*"
dirs = "*"
once_cell = "*"
parking_lot = "*"
portable-pty = "*"
ssh2 = "*"
clap = { version = "*", features = ["derive"] }
