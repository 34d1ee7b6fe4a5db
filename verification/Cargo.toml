[package]
name = "cart"
version = "0.6.0"
edition = "2021"
publish = false

[dependencies]
anyhow = "1"
clap = { version = "4", features = ["derive"] }
git2 = { version = "*", default-features = false }
semver = "1"
serde = { version = "1", features = ["derive"] }
sha2 = "0.10"
toml = "0.8"
