[package]
name = "landscape"
version = "0.1.0"
edition = "2021"
publish = false

[dependencies]
arc-swap = "*"
async-trait = "*"
bytes = "*"
dashmap = "=6.2.1"
hickory-proto = "=0.26.3"
hickory-server = "=0.26.3"
homedir = "*"
http = "=1.5.0"
idna = "=1.1.0"
ipnet = "=2.12.2"
libc = "*"
moka = { version = "*", features = ["future"] }
pingora = { version = "*", default-features = false, features = ["proxy"] }
pingora-error = "=0.9.1"
pingora-http = "=0.9.1"
plain = "*"
serde = { version = "1", features = ["derive"] }
serde_json = "1"
socket2 = "*"
thiserror = "*"
tokio = { version = "1", features = ["full"] }
tokio-util = { version = "*", features = ["rt"] }
toml = "*"
tracing = "*"
uuid = { version = "=1.29.0", features = ["v4", "serde"] }
