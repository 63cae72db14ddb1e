[package]
name = "ggpo"
version = "0.1.0"
edition = "2021"
publish = false

[dependencies]
rand = "0.7"
rand_distr = "0.2"
serde = { version = "1", features = ["derive"] }
serde-big-array = "0.3"
bincode = "1"
zstd = "*"
thiserror = "1"
bytes = "1"
log = "0.4"
parking_lot = "0.11"
mio = { version = "0.7", features = ["os-poll", "net"] }
async-net = "1"
async-mutex = "1"
async-dup = "1"
async-trait = "0.1"
blocking = "1"
