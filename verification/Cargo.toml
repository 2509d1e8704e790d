[package]
name = "letsnote-wheelpad"
version = "0.1.0"
edition = "2021"
publish = false

[dependencies]
clap = { version = "4", features = ["derive"] }
evdev = "0.12"
libc = "0.2"
libsystemd = "0.7"
nix = { version = "0.27", features = ["poll", "signal"] }
regex = "1"
serde = { version = "1", features = ["derive"] }
toml = "0.8"
tracing = "0.1"
tracing-subscriber = { version = "0.3", features = ["env-filter"] }
