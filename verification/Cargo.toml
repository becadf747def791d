[package]
name = "tissue"
version = "0.1.0"
edition = "2021"
publish = false

[dependencies]
anyhow = "*"
chrono = "*"
crossterm = "*"
etcetera = "*"
fern = "*"
log = "*"
tokio = { version = "*", features = ["rt", "macros"] }
toml = "*"
which = "*"
