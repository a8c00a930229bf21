[package]
name = "krot"
version = "0.1.0"
edition = "2021"
publish = false

[dependencies]
async-trait = "0.1"
base32 = "0.5"
base64 = "0.22"
blake3 = { version = "1", default-features = false, features = ["pure", "std"] }
clap = { version = "4", features = ["derive"] }
dirs = "5"
ed25519-dalek = { version = "2", features = ["rand_core"] }
governor = "0.6"
hex = "0.4"
httparse = "1"
notify = "6"
postcard = { version = "1", features = ["use-std"] }
quinn = { version = "0.11", default-features = false, features = ["runtime-tokio", "rustls-ring"] }
rand = "0.8"
rcgen = "0.13"
rustls = { version = "0.23", default-features = false, features = ["ring", "std", "tls12"] }
serde = { version = "1", features = ["derive"] }
serde_json = "1"
sha2 = "0.10"
socket2 = { version = "0.5", features = ["all"] }
thiserror = "1"
time = { version = "0.3", features = ["formatting", "macros"] }
tokio = { version = "1", features = ["full"] }
tokio-rustls = { version = "0.26", default-features = false, features = ["ring", "tls12"] }
toml = "0.8"
tracing = "0.1"
tracing-subscriber = { version = "0.3", features = ["env-filter"] }
x509-parser = "0.16"

[dev-dependencies]
tempfile = "3"
