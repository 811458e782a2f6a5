[package]
name = "spike_spk"
version = "0.1.0"
edition = "2021"
publish = false

[dependencies]
md-5 = "0.10"
hmac = "0.12"
sha1 = "0.10"
hex = "0.4"
glob = "0.3"
anyhow = "1"
clap = { version = "4", features = ["derive"] }
reflink = "*"
backhand = "*"
