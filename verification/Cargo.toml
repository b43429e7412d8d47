[package]
name = "nearssage"
version = "0.1.0"
edition = "2021"
publish = false

[dependencies]
anyhow = "=1.0.104"
blake3 = "=1.8.7"
chacha20 = "=0.9.1"
crc32fast = "=1.5.4"
lz4_flex = "=0.11.6"
postcard = { version = "=1.1.3", features = ["use-std"] }
flexbuffers = "=25.12.19"
rand = "=0.8.8"
x25519-dalek = { version = "=2.0.1", features = ["static_secrets", "serde"] }
pqcrypto-falcon = "=0.4.1"
pqcrypto-traits = "=0.3.5"
csidh = "=0.5.0"
serde = { version = "=1.0.229", features = ["derive"] }
tokio = { version = "=1.54.1", features = ["rt-multi-thread", "macros", "net", "sync", "time", "io-util"] }
udp-stream = "=0.0.13"
flume = "=0.12.0"
chrono = "=0.4.45"
base64 = "=0.21.7"
redb = "=4.4.0"
clap = { version = "=4.6.7", features = ["derive"] }
figment = { version = "=0.10.19", features = ["toml"] }
colored = "=2.2.0"
tracing = "=0.1.44"
tracing-subscriber = "=0.3.23"
tracing-appender = "=0.2.5"
metrics = "=0.24.6"
metrics-tracing-context = "=0.18.1"
email_address = { version = "*", features = ["serde_support"] }
phonenumber = "*"
