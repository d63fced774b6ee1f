[package]
name = "safefile"
version = "0.1.0"
edition = "2021"
publish = false

[dependencies]
aes-gcm-stream = "=0.2.4"
aes-gcm = "=0.10.3"
sss-rs = "=0.13.1"
sha2 = "=0.11.0"
zeroize = "=1.9.1"
clap = { version = "=4.6.7", features = ["derive"] }
colored = "=3.1.1"
indicatif = "=0.18.6"
chrono = "=0.4.45"
