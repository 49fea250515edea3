[package]
name = "pihole_api"
version = "0.1.0"
edition = "2021"
publish = false

[dependencies]
base64 = "=0.13.1"
diesel = { version = "1.4", features = ["sqlite", "r2d2"] }
hostname = "=0.3.1"
libc = "=0.2.191"
regex = "=1.13.1"
rmp = "=0.8.15"
rocket = { version = "=0.5.2", features = ["json"] }
rocket_cors = "=0.6.0"
serde = { version = "=1.0.229", features = ["derive"] }
serde_json = "=1.0.154"
structopt = "=0.3.26"
toml = "=0.5.11"
