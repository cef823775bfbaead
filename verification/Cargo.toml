[package]
name = "sway_alttab"
version = "0.1.0"
edition = "2021"
publish = false

[dependencies]
anyhow = "*"
clap = { version = "*", features = ["derive"] }
dirs = "*"
futures-lite = "*"
nix = { version = "*", features = ["signal"] }
serde = { version = "*", features = ["derive"] }
serde_json = "*"
swayipc = "*"
swayipc-async = "*"
tokio = { version = "*", features = ["macros", "rt-multi-thread", "net", "io-util", "sync", "signal"] }
tracing = "*"
tracing-subscriber = "*"
