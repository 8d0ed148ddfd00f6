[package]
name = "crossglyph"
version = "0.1.0"
edition = "2021"
publish = false

[dependencies]
anyhow = "=1.0.104"
clap = { version = "=4.6.7", features = ["derive"] }
glam = "=0.24.2"
opencascade = "=0.3.0"
ttf-parser = "=0.25.1"
