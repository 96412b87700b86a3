[package]
name = "pokeys_lib"
version = "0.1.0"
edition = "2021"
publish = false

[dependencies]
serde = { version = "1", features = ["derive"] }
serde_yaml = "0.9"
thiserror = "2"
log = "0.4"
dirs = "5"
notify = "6"
fastrand = "2"
