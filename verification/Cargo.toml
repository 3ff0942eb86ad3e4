[package]
name = "harmonium"
version = "0.1.0"
edition = "2021"
publish = false

[dependencies]
midly = "=0.5.3"
rust-music-theory = "0.3"
rand = "=0.8.8"
rand_chacha = "=0.3.1"
serde = { version = "=1.0.229", features = ["derive"] }
serde_json = "=1.0.154"
