[package]
name = "folonet"
version = "0.1.0"
edition = "2021"
publish = false

[dependencies]
anyhow = "1"
aya = "0.12"
aya-ebpf = "0.1"
aya-log = "0.2"
aya-log-ebpf = "0.1"
byteorder = "1"
clap = { version = "4", features = ["derive"] }
env_logger = "0.10"
libc = "0.2"
log = "0.4"
network-types = "0.0.5"
pnet = "0.34"
prost = "0.12"
serde = { version = "1", features = ["derive"] }
serde_yaml = "0.9"
tokio = { version = "1", features = ["macros", "rt", "rt-multi-thread", "net", "signal", "time", "sync"] }
tonic = "0.11"
