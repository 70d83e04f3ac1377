[package]
name = "haw"
version = "0.1.0"
edition = "2021"
publish = false

[dependencies]
time = "0.3"
smallvec = "1"
lz4_flex = "0.11"
postcard = { version = "1", default-features = false, features = ["alloc"] }
serde = { version = "1", features = ["derive"] }
