[package]
name = "kavimo"
version = "0.1.0"
edition = "2021"
publish = false

[dependencies]
aes = "0.8"
aes-gcm = "0.10"
base64 = "0.22"
cbc = { version = "0.1", features = ["alloc", "block-padding"] }
chrono = "0.4"
clap = { version = "4", features = ["derive"] }
hex = "0.4"
libc = "0.2"
pbkdf2 = "0.12"
regex = "1"
reqwest = { version = "0.12", default-features = false }
serde_json = "1"
sha2 = "0.10"
tokio = { version = "1", features = ["rt-multi-thread", "macros", "sync"] }
url = "2"
