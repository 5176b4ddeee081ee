[package]
name = "sealed_relay"
version = "0.1.0"
edition = "2021"
publish = false

[dependencies]
anyhow = "1"
bincode = "1"
clap = { version = "4", features = ["derive"] }
data-encoding = "2"
hex = "0.4"
lettre = "0.10"
log = "0.4"
notify = "6"
openssl = "0.10"
reqwest = { version = "0.11", features = ["blocking", "multipart"] }
serde = { version = "1", features = ["derive"] }
serde_derive = "1"
serde_json = "1"
simple_logger = "4"
ssh2 = "0.9"
toml = "0.8"
zip = { version = "0.6", default-features = false, features = ["deflate"] }
