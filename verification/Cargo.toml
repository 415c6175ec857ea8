[package]
name = "jp_utils"
version = "0.1.0"
edition = "2021"
publish = false

[dependencies]
itertools = "0.10"
serde = { version = "1", features = ["derive"] }
tinyvec = { version = "1", features = ["alloc"] }
