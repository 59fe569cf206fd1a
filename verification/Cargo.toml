[package]
name = "bootagent"
version = "0.1.0"
edition = "2021"
publish = false

[dependencies]
openssl = "*"
openssh-keys = "*"
reqwest = { version = "*", default-features = false, features = ["blocking"] }
clap = "*"
anyhow = "*"
