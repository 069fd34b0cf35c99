[package]
name = "plaud_timestamp"
version = "0.1.0"
edition = "2021"
publish = false

[dependencies]
chrono = { version = "0.4", default-features = false, features = ["std"] }
clap = { version = "4", features = ["derive"] }
glob = "0.3"
tempfile = "3"
thiserror = "1"
