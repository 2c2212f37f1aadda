[package]
name = "aiproxy_core"
version = "0.1.0"
edition = "2021"
publish = false

[dependencies]
unicode-normalization = "*"
regex = "*"
serde_json = "*"
serde = { version = "*", features = ["derive"] }
reqwest = { version = "*", default-features = false, features = ["json", "stream"] }
tokio = { version = "*", features = ["rt-multi-thread", "macros", "time"] }
clap = { version = "*", features = ["derive"] }
futures = "*"
futures-util = "*"
async-trait = "*"
bytes = "*"
once_cell = "*"
secrecy = "*"
toml = "*"
