[package]
name = "firn"
version = "0.1.0"
edition = "2021"
publish = false

[dependencies]
csv = "1"
infer = "*"
kamadak-exif = "*"
leb128 = "0.2"
rstar = "*"
serde = { version = "1", features = ["derive"] }
serde_json = "1"
time = { version = "0.3", features = ["parsing"] }
walkdir = "2"
