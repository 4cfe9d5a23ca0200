[package]
name = "subsonic"
version = "0.1.0"
edition = "2021"
publish = false

[dependencies]
argon2 = "=0.5.3"
rand_core = { version = "=0.6.4", features = ["getrandom"] }
hex = "=0.4.3"
md-5 = "=0.10.6"
chrono = "=0.4.45"
urlencoding = "=2.1.3"
serde = { version = "=1.0.229", features = ["derive"] }
serde_json = "=1.0.154"
quick-xml = { version = "=0.42.0", features = ["serialize"] }
clap = { version = "=4.6.7", features = ["derive"] }
lofty = "=0.22.4"
walkdir = "=2.5.0"
image = { version = "0.25", default-features = false, features = ["png", "jpeg", "gif", "bmp", "tiff", "webp"] }
