[package]
name = "pastebridge"
version = "0.1.2"
edition = "2021"
publish = false

[dependencies]
anyhow = "1"
arboard = "3"
base64 = "0.22"
clap = { version = "4", features = ["derive"] }
directories = "5"
fs2 = "0.4"
hex = "0.4"
hostname = "0.4"
image = { version = "0.25", default-features = false, features = ["png", "jpeg", "gif", "webp", "bmp", "tiff"] }
indicatif = "0.17"
local-ip-address = "0.6"
mdns-sd = "0.13"
quinn = { version = "0.11", default-features = false, features = ["runtime-tokio", "rustls-ring"] }
rcgen = "0.13"
rustls = { version = "0.23", default-features = false, features = ["ring", "std", "tls12", "logging"] }
rustls-pki-types = { version = "1", features = ["std"] }
serde = { version = "1", features = ["derive"] }
serde_json = "1"
sha2 = "0.10"
time = { version = "0.3", features = ["formatting"] }
tokio = { version = "1", features = ["rt-multi-thread", "macros", "sync", "time", "io-util", "signal", "net"] }
toml = "0.8"
tracing = "0.1"
tracing-subscriber = { version = "0.3", features = ["env-filter"] }
