[package]
name = "mum"
version = "0.1.0"
edition = "2021"
publish = false

[dependencies]
mumble-protocol = "=0.4.1"
bytes = "=1.12.1"
hound = "=3.5.1"
lewton = "=0.10.2"
serde = { version = "=1.0.229", features = ["derive"] }
toml = "=1.1.7"
tokio = { version = "=1.53.2", features = ["rt", "net", "sync", "time", "macros", "io-util"] }
tokio-util = { version = "=0.7.19", features = ["codec", "net"] }
futures-util = "=0.3.34"
