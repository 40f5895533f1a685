[package]
name = "romeo"
version = "0.1.0"
edition = "2021"
publish = false

[dependencies]
crossbeam-channel = "*"
uuid = { version = "*", features = ["v4"] }
rand = "*"
num_cpus = "*"
log = "*"
pretty_env_logger = "*"
