[package]
name = "shijuan"
version = "0.1.0"
edition = "2021"
publish = false

[dependencies]
serde = { version = "=1.0.229", features = ["derive"] }
serde_json = "=1.0.154"
regex = "=1.13.1"
encoding_rs = "=0.8.44"
reqwest = { version = "=0.12.28", default-features = false, features = ["blocking", "json"] }
directories = "=5.0.1"
log = "=0.4.35"
windows-sys = { version = "=0.61.2", features = ["Win32_Foundation", "Win32_Security_Cryptography"] }
