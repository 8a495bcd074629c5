[package]
name = "rsmpp"
version = "0.1.0"
edition = "2021"
publish = false

[dependencies]
smpp-codec = "*"
rand = "0.8"
regex = "1"
tokio = { version = "1", features = ["full"] }
tokio-rustls = { version = "0.26", default-features = false, features = ["ring", "tls12"] }
async-trait = "0.1"
thiserror = "1"
