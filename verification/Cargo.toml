[package]
name = "hmm"
version = "0.1.0"
edition = "2021"
publish = false

[dependencies]
anyhow = "1"
clap = { version = "4", features = ["derive"] }
clap-verbosity-flag = "3"
env_logger = "0.11"
inquire = "0.7"
log = "0.4"
thiserror = "1"
