[package]
name = "loggit"
version = "0.1.0"
edition = "2021"
publish = false

[dependencies]
chrono = "0.4"
dirs = "*"
env-file-reader = "*"
once_cell = "1"
rust-ini = "*"
serde = { version = "1", features = ["derive"] }
serde_json = "1"
thiserror = "*"
zip = { version = "*", default-features = false, features = ["deflate"] }
