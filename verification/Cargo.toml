[package]
name = "whatsnew"
version = "0.1.0"
edition = "2021"
publish = false

[dependencies]
anyhow = "=1.0.104"
clap = { version = "=4.6.7", features = ["derive"] }
etcetera = "=0.11.0"
futures-util = "=0.3.34"
indexmap = { version = "=2.14.2", features = ["serde"] }
jiff = { version = "=0.2.38", features = ["serde"] }
octocrab = "=0.47.1"
owo-colors = { version = "=4.4.0", features = ["supports-colors"] }
serde = { version = "=1.0.229", features = ["derive"] }
serde_json = "=1.0.154"
tokio = { version = "=1.54.1", features = ["macros", "rt-multi-thread"] }
