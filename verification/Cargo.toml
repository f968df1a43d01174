[package]
name = "lockpick"
version = "0.1.0"
edition = "2021"
publish = false

[dependencies]
serde = { version = "=1.0.229", features = ["derive"] }
serde_json = "=1.0.154"
serde_yml = "=0.0.13"
serde_yaml = "=0.9.34"
regex = "=1.13.1"
clap = { version = "=4.6.7", features = ["derive"] }
tokio = { version = "=1.54.1", features = ["rt-multi-thread", "macros", "sync", "time"] }
glob = "=0.3.4"
walkdir = "=2.5.0"
dirs = "=7.0.0"
thiserror = "=2.0.21"
owo-colors = "=4.4.0"
indicatif = "=0.18.6"
