[package]
name = "distribution"
version = "0.1.0"
edition = "2021"
publish = false

[dependencies]
alloy-consensus = "*"
alloy-network = "*"
alloy-primitives = "*"
alloy-signer-local = "*"
hex = "*"
serde_json = "*"
tokio = { version = "*", default-features = false, features = ["rt-multi-thread", "macros", "time"] }
reqwest = { version = "*", default-features = false, features = ["json"] }
serde = { version = "*", features = ["derive"] }
serde_yaml = "*"
anyhow = "*"
clap = "*"
rand = "*"
dotenv = "*"
tracing = "*"
tracing-subscriber = { version = "*", features = ["env-filter"] }
