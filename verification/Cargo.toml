[package]
name = "rusty_planner"
version = "0.1.0"
edition = "2021"
publish = false

[dependencies]
chrono = { version = "0.4", features = ["serde"] }
daemonize = "0.5"
directories = "5"
futures = "0.3"
notify = "6"
notify-rust = "4"
ratatui = "0.29"
regex = "1"
serde = { version = "1", features = ["derive"] }
serde_json = "1"
signal-hook = "0.3"
uzers = "0.12"
