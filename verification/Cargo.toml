[package]
name = "git-repos-analysis"
version = "0.1.0"
edition = "2021"
publish = false

[dependencies]
anyhow = "=1.0.104"
chrono = "=0.4.45"
clap = { version = "=4.6.7", features = ["derive"] }
dirs = "=7.0.0"
git2 = { version = "=0.21.0", features = ["https", "ssh"] }
regex = "=1.13.1"
serde_json = "=1.0.154"
tiktoken-rs = "=0.12.1"
tracing = "=0.1.44"
tracing-subscriber = { version = "=0.3.23", features = ["env-filter"] }
