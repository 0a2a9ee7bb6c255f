[package]
name = "jarvis"
version = "0.1.0"
edition = "2021"
publish = false

[dependencies]
shell-words = "=1.1.1"
base64 = "=0.22.1"
rand = "=0.8.8"
serde = { version = "=1.0.229", features = ["derive"] }
serde_json = "=1.0.154"
regex = "=1.13.1"
glob = "=0.3.4"
walkdir = "=2.5.0"
dirs = "=5.0.1"
portable-pty = "=0.9.0"
thiserror = "=1.0.69"
tracing = "=0.1.44"
lofty = "=0.25.5"
reqwest = { version = "0.12", features = ["json"] }
tokio = { version = "1", features = ["rt-multi-thread", "macros", "sync", "time"] }
async-trait = "0.1"
