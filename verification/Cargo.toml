[package]
name = "syncerting-tray"
version = "0.1.0"
edition = "2021"
publish = false

[dependencies]
anyhow = "1"
dirs = "5"
ksni = "0.3"
open = "5"
reqwest = { version = "0.12", default-features = false, features = ["json", "rustls-tls"] }
resvg = { version = "0.44", default-features = false }
roxmltree = "0.20"
serde = { version = "1", features = ["derive"] }
serde_json = "1"
tokio = { version = "1", features = ["rt", "macros", "sync", "time", "process", "net", "io-util"] }
zbus = { version = "5", default-features = false, features = ["tokio"] }
