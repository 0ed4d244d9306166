[package]
name = "kademlia-exporter"
version = "0.1.0"
edition = "2021"
publish = false

[dependencies]
async-std = "1"
ctrlc = "3"
env_logger = { version = "0.10", default-features = false }
exit-future = "0.2"
futures = "0.3"
futures-timer = "3"
libp2p = { version = "=0.52.4", features = ["async-std", "dns", "identify", "kad", "macros", "metrics", "noise", "ping", "tcp", "yamux"] }
libp2p-quic = { version = "0.9", features = ["async-std"] }
log = "0.4"
maxminddb = "0.32"
parking_lot = "0.12"
prometheus-client = "0.21"
serde = { version = "1", features = ["derive"] }
structopt = { version = "0.3", default-features = false }
toml = "0.7"
void = "1"
