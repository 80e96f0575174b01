[package]
name = "octomate"
version = "0.1.0"
edition = "2021"
publish = false

[dependencies]
futures = "=0.3.34"
octocrab = "=0.47.1"
paris = "=1.5.15"
rpassword = "=7.5.4"
serde = { version = "=1.0.229", features = ["derive"] }
serde_json = "=1.0.151"
serde_yaml = "=0.9.34"
tokio = { version = "=1.53.2", features = ["rt-multi-thread", "macros", "fs"] }
