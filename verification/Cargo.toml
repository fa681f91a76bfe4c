[package]
name = "vx_pack"
version = "0.1.0"
edition = "2021"
publish = false

[dependencies]
glob = "*"
anyhow = "*"
clap = { version = "*", features = ["derive"] }
clap_derive = "*"
log = "*"
simple_logger = "*"
walkdir = "*"
zip = "*"
