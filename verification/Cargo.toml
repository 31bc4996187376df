[package]
name = "cign"
version = "0.1.0"
edition = "2021"
publish = false

[dependencies]
clap = { version = "=4.6.7", features = ["derive"] }
cli-table = "=0.5.0"
dialoguer = "=0.12.0"
env_logger = "=0.11.11"
git2 = { version = "=0.21.0", default-features = false }
libc = "=0.2.191"
log = "=0.4.34"
serde = { version = "=1.0.229", features = ["derive"] }
shellexpand = "=3.1.2"
toml = "=1.1.8"

[dev-dependencies]
tempfile = "=3.27.0"
