[package]
name = "hexgit"
version = "0.1.0"
edition = "2021"
publish = false

[dependencies]
semver = "1"
git2 = "*"
clap = "*"
anyhow = "1"
ansi_term = "*"
serde = { version = "1", features = ["derive"] }
thiserror = "*"
toml = "*"
