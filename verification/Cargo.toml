[package]
name = "async_jira_cli"
version = "0.1.0"
edition = "2021"
publish = false

[dependencies]
async-std = "1"
futures = "0.3"
clap = { version = "4", features = ["derive"] }
tracing = "0.1"
tracing-appender = "0.2"
tracing-subscriber = { version = "0.3", features = ["env-filter"] }
unicode-width = "0.1"
uuid = { version = "1", features = ["v4"] }
