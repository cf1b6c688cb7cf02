[package]
name = "vume"
version = "0.1.0"
edition = "2021"
publish = false

[dependencies]
anyhow = "1"
clap = { version = "4", features = ["derive"] }
env_logger = "*"
log = "0.4"
nix = { version = "*", features = ["signal", "process"] }
reqwest = { version = "*", default-features = false, features = ["blocking", "json"] }
rusqlite = { version = "*", features = ["bundled"] }
serde = { version = "1", features = ["derive"] }
serde_json = "1"
ssh2 = "*"
time = { version = "0.3", features = ["formatting"] }
toml = "*"
uuid = { version = "1", features = ["v4"] }
