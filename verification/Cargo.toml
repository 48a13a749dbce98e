[package]
name = "backuptool"
version = "0.1.0"
edition = "2021"
publish = false

[dependencies]
aes-gcm = "0.10"
chacha20poly1305 = "0.10"
argon2 = "0.5"
rand = "0.8"
base64 = "0.22"
blake3 = "1"
globset = "0.4"
anyhow = "1"
serde = { version = "1", features = ["derive"] }
serde_json = "1"
walkdir = "2"
rayon = "1"
filetime = "0.2"
gethostname = "0.5"
chrono = "0.4"
clap = { version = "4", features = ["derive"] }
indicatif = "0.17"
rpassword = "7"
libc = "0.2"
