[package]
name = "textadventurer"
version = "0.1.0"
edition = "2021"
publish = false

[dependencies]
actix = "0.10"
actix-files = "0.3"
actix-rt = "1"
actix-web = { version = "3", default-features = false }
actix-web-actors = "3"
bytes = "=0.5.6"
clap = { version = "=2.34.0", default-features = false }
env_logger = { version = "=0.7.1", default-features = false }
log = "0.4"
serde = "1"
serde_derive = "1"
# The catalogue's objects keep their fields in the order they are given.
serde_json = { version = "=1.0.154", features = ["preserve_order"] }
toml = "=0.5.11"
