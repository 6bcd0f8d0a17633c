[package]
name = "wurst_deps"
version = "0.1.0"
edition = "2021"
publish = false

[dependencies]
anyhow = "=1.0.104"
clap = { version = "=4.6.7", features = ["derive"] }
comfy-table = "=7.2.2"
futures-util = "=0.3.34"
octocrab = { version = "=0.47.1", features = ["stream"] }
tokio = { version = "=1.54.1", features = ["macros", "rt-multi-thread"] }
