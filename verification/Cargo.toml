[package]
name = "monos"
version = "0.1.0"
edition = "2021"
publish = false

[dependencies]
rustc-hash = "=2.1.3"
hashbrown = "=0.17.1"
rand = { version = "=0.8.8", default-features = false, features = ["small_rng"] }
serde = { version = "=1.0.229", default-features = false, features = ["derive", "alloc"] }
postcard = { version = "=1.1.3", features = ["alloc"] }
spin = "=0.9.9"
pc-keyboard = "=0.9.0"
x86_64 = { version = "=0.15.5", default-features = false, features = ["instructions"] }
bootloader_api = "=0.11.17"
