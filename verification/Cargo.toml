[package]
name = "dapctl"
version = "0.1.0"
edition = "2021"
publish = false

[dependencies]
anyhow = "=1.0.104"
blake3 = "=1.8.7"
camino = "=1.2.6"
clap = { version = "=4.6.7", features = ["derive"] }
crossterm = "0.28"
directories = "=5.0.1"
globset = "=0.4.21"
image = { version = "=0.25.10", default-features = false, features = ["jpeg", "png"] }
indicatif = "=0.18.6"
lofty = "=0.25.5"
ratatui = "0.29"
reqwest = { version = "=0.13.5", default-features = false, features = ["blocking", "json"] }
serde = { version = "=1.0.229", features = ["derive"] }
serde_json = "=1.0.154"
sysinfo = "=0.40.1"
thiserror = "=2.0.21"
time = { version = "=0.3.55", features = ["formatting"] }
toml = "=1.1.8"
toml_edit = "=0.25.17"
tracing = "=0.1.44"
tracing-subscriber = "=0.3.23"
tui-input = "0.11"
ulid = "=1.2.1"
walkdir = "=2.5.0"
