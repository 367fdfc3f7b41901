[package]
name = "rav"
version = "0.1.0"
edition = "2021"
publish = false

[dependencies]
anyhow = "=1.0.104"
crossterm = "=0.29.0"
dirs = "=7.0.0"
font8x8 = "=0.3.1"
libc = "=0.2.191"
ratatui = "=0.30.2"
serde = { version = "=1.0.229", features = ["derive"] }
tiny-skia = "=0.12.0"
toml = "=1.1.8"
