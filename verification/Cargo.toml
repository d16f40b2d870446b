[package]
name = "conference_mapper"
version = "0.1.0"
edition = "2021"
publish = false

[dependencies]
sled = "=0.34.7"
urlencoding = "=2.1.3"
actix-web = { version = "=4.15.0", features = ["openssl"] }
actix-rt = "*"
serde = { version = "*", features = ["derive"] }
serde_json = "*"
structopt = "*"
env_logger = "*"
openssl = "*"

[dev-dependencies]
rand = "=0.10.3"
