[package]
name = "clihatch"
version = "0.1.5"
edition = "2021"
publish = false

[dependencies]
clap = { version = "4", features = ["derive"] }
clap_complete = "4"
include_dir = "0.7"
serde = { version = "1", features = ["derive"] }
serde_json = "1"
thiserror = "2"
