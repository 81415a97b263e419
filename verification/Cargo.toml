[package]
name = "gamett"
version = "0.1.0"
edition = "2021"
publish = false

[dependencies]
anyhow = "1"
clap = { version = "4", features = ["derive"] }
clap-verbosity-flag = "2"
crossbeam-channel = "0.5"
ctrlc = "3"
indicatif = "0.17"
itertools = "0.12"
log = "0.4"
pretty_env_logger = "0.5"
thiserror = "1"
