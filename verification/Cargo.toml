[package]
name = "keymask"
version = "0.1.0"
edition = "2021"
publish = false

[dependencies]
rust-argon2 = "*"
blake3 = "*"
textnonce = "*"
dotenv = "*"
postgres = "*"
tokio-postgres = "*"
deadpool-postgres = "*"
