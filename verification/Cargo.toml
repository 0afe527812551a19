[package]
name = "gcrecomp_core"
version = "0.1.0"
edition = "2021"
publish = false

[dependencies]
smallvec = "1"
bitvec = "1"
regex = "1"
zstd = "0.13"
anyhow = "1"
log = "0.4"
serde = { version = "1", features = ["derive"] }
serde_json = "1"
thiserror = "1"
clap = { version = "4", features = ["derive"] }
env_logger = "0.11"
indicatif = "0.17"
flate2 = "1"
