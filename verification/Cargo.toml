[package]
name = "gh_governor"
version = "0.1.0"
edition = "2021"
publish = false

[dependencies]
base64 = "=0.23.1"
chrono = "*"
clap = { version = "*", features = ["derive", "env"] }
glob = "*"
octocrab = "=0.47.1"
owo-colors = { version = "=4.4.0", features = ["supports-colors"] }
percent-encoding = "=2.3.2"
reqwest = { version = "*", default-features = false }
serde = { version = "*", features = ["derive"] }
serde_json = "*"
serde_yaml = "=0.9.34"
thiserror = "*"
tokio = { version = "*", features = ["macros", "rt-multi-thread"] }
toml = "*"
tracing = "*"
tracing-subscriber = { version = "*", features = ["env-filter"] }
