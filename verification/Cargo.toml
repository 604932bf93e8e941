[package]
name = "pecos"
version = "0.1.0"
edition = "2021"
publish = false

[dependencies]
clap = { version = "4", features = ["derive"] }
env_logger = "0.11"
lazy_static = "1"
log = "0.4"
memmap2 = "0.9"
num-complex = "0.4"
num-traits = "0.2"
os_pipe = "1"
parking_lot = "0.12"
petgraph = "0.6"
rand = "0.8"
rand_chacha = "0.3"
rayon = "1"
serde = { version = "1", features = ["derive"] }
serde_json = "1"
uuid = { version = "1", features = ["v4"] }
