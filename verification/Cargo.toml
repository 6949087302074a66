[package]
name = "rtps"
version = "0.1.0"
edition = "2021"
publish = false

[dependencies]
bit-vec = "0.6"
chrono = { version = "0.4", default-features = false }
safer-bytes = "*"
thiserror = "1"
vec1 = "1"
