[package]
name = "firekeeper"
version = "0.1.0"
edition = "2021"
publish = false

[dependencies]
globset = "*"
clap = { version = "*", features = ["derive", "env"] }
tokio = { version = "*", features = ["rt-multi-thread", "macros", "signal", "process", "fs", "time", "io-util"] }
reqwest = { version = "*", default-features = false, features = ["json", "rustls-tls"] }
serde = { version = "*", features = ["derive"] }
serde_json = "*"
toml = "*"
tracing = "*"
tracing-subscriber = { version = "*", features = ["env-filter"] }
futures = "*"
chrono = "*"
html2md = "*"
gray_matter = "*"
sheath = "*"
