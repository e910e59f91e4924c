[package]
name = "refresher"
version = "0.1.0"
edition = "2021"
publish = false

[dependencies]
select = "0.6"
clap = { version = "4", features = ["derive"] }
dialoguer = "0.10"
indicatif = "0.17"
log = "0.4"
serde = { version = "1", features = ["derive"] }
serde_json = "1"
toml = "0.5"
zip = "7"
simple-log = "1"
reqwest = { version = "0.11", default-features = false, features = ["blocking", "json", "rustls-tls"] }
self_update = { version = "0.34", default-features = false, features = ["rustls"] }
game-scanner = "*"
mslnk = "0.1"
