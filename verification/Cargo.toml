[package]
name = "drop_sharing"
version = "0.1.0"
edition = "2021"
publish = false

[dependencies]
blake3 = "=1.8.7"
chacha20poly1305 = "=0.11.0"
ml-dsa = "=0.1.2"
ml-kem = { version = "=0.3.4", features = ["getrandom"] }
hostname = "=0.4.2"
zeroize = "=1.9.1"
tokio = { version = "=1.54.1", features = ["full"] }
clap = { version = "=4.6.7", features = ["derive"] }
notify-rust = "=4.18.2"
wpactrl = "=0.5.1"
