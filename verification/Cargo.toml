[package]
name = "basalt"
version = "0.1.0"
edition = "2021"
publish = false

[dependencies]
ratatui = "*"
serde = { version = "*", features = ["derive"] }
toml = "*"
etcetera = "*"
thiserror = "*"
