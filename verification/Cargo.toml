[package]
name = "conductor_tools"
version = "0.1.0"
edition = "2021"
publish = false

[dependencies]
hex = "=0.4.3"
ed25519-dalek = { version = "=2.2.0", features = ["rand_core"] }
rand = "=0.8.8"
chrono = "=0.4.45"
serde_json = "=1.0.154"
clap = { version = "=4.6.7", features = ["derive"] }
colored = "=2.2.0"
dirs = "=5.0.1"
toml = "=0.8.23"
toml_edit = "=0.22.27"
tokio = { version = "=1.54.1", features = ["rt-multi-thread", "macros", "time", "signal"] }
ctrlc = "=3.5.2"
midi-msg = "=0.9.0"
midir = "=0.11.1"
hidapi = "=2.6.7"
gilrs = "0.11"
uuid = { version = "=1.29.0", features = ["v4"] }
tracing = "0.1"
tracing-subscriber = { version = "0.3", features = ["env-filter"] }
