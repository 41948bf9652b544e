[package]
name = "paris_transit"
version = "0.1.0"
edition = "2021"
publish = false

[dependencies]
itertools = "=0.15.0"
chrono = "=0.4.45"
chrono-tz = "=0.10.4"
actix = "=0.13.5"
actix-web = { version = "=4.18.1", default-features = false, features = ["macros", "compress-gzip", "ws"] }
actix-files = "=0.6.10"
actix-web-actors = "=4.3.1"
tera = "=1.20.1"
serde = { version = "=1.0.229", features = ["derive"] }
serde_json = "=1.0.154"
csv = "=1.4.0"
reqwest = { version = "=0.11.27", default-features = false, features = ["gzip", "rustls-tls"] }
gtfs-structures = { version = "=0.52.0", default-features = false }
tracing = "=0.1.44"
tracing-subscriber = "=0.3.23"
color-eyre = { version = "=0.6.5", default-features = false }
lazy_static = "=1.5.1"
