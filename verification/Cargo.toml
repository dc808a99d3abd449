[package]
name = "ra2a"
version = "0.1.0"
edition = "2021"
publish = false

[dependencies]
uuid = { version = "=1.27.0", features = ["v4"] }
chrono = "=0.4.45"
time = { version = "=0.3.55", features = ["parsing", "formatting"] }
serde = { version = "=1.0.229", features = ["derive"] }
serde_json = "*"
tokio = { version = "*", features = ["full"] }
tonic = { version = "=0.14.6", features = ["gzip"] }
tonic-prost = "=0.14.6"
prost = "=0.14.4"
prost-types = "=0.14.4"
bytes = "*"
http = "*"
async-trait = "*"
futures = "*"
jsonrpsee = { version = "=0.26.1", features = ["server", "http-client"] }
