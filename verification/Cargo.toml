[package]
name = "spacefn"
version = "0.1.0"
edition = "2021"
publish = false

[dependencies]
anyhow = "*"
dirs = "*"
env_logger = "*"
evdev = "*"
log = "*"
nix = { version = "*", features = ["poll", "time"] }
serde = { version = "*", features = ["derive"] }
toml = "*"
