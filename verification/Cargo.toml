[package]
name = "hubtain"
version = "0.1.0"
edition = "2021"
publish = false

[dependencies]
anyhow = "1"
async-std = "1"
async-trait = "0.1"
atty = "0.2"
bincode = "1.3"
clap = "2.33"
colored = "1"
crossterm = "0.17"
env_logger = "0.7"
futures = "0.3"
get_if_addrs = "0.5"
igd = "0.11"
indicatif = "0.14"
log = "0.4"
mnemonic = "1"
ossuary = "0.5"
rand = "0.7"
ring = "0.16"
serde = { version = "1", features = ["derive"] }
serde_json = "1"
snow = "0.9"
thiserror = "1"
tui = { version = "0.9", default-features = false, features = ["crossterm"] }
x25519-dalek = "1"
