[package]
name = "preboot_oxide"
version = "0.1.0"
edition = "2021"
publish = false

[dependencies]
anyhow = "1"
async-std = { version = "1", features = ["unstable"] }
async-tftp = "*"
clap = { version = "4", features = ["derive", "cargo"] }
derive_builder = "*"
dhcproto = { version = "*", features = ["serde"] }
dirs = "*"
dotenv = "*"
env_logger = "*"
log = "0.4"
network-interface = "*"
once_cell = "1"
phf = { version = "*", features = ["macros"] }
polling = "*"
regex = "1"
serde_json = "1"
single-instance = "*"
socket2 = { version = "*", features = ["all"] }
yaml-rust2 = "*"
