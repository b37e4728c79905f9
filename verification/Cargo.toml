[package]
name = "ztna"
version = "0.1.0"
edition = "2021"
publish = false

[dependencies]
bincode = "1"
serde = { version = "1", features = ["derive"] }
serde_json = "1"
ring = "0.17"
x509-parser = "0.16"
oid-registry = "0.7"
etherparse = "0.16"
quiche = "0.22"
mio = { version = "1", features = ["net", "os-poll"] }
log = "0.4"
env_logger = "0.11"
signal-hook = "0.3"
libc = "0.2"

[dev-dependencies]
rcgen = { version = "0.13", default-features = false, features = ["ring", "crypto", "pem"] }
