[package]
name = "ren_browser"
version = "0.5.0"
edition = "2021"
publish = false

[dependencies]
chrono = { version = "0.4", default-features = false, features = ["clock"] }
dirs = "5"
itertools = "0.12"
log = "0.4"
reqwest = { version = "0.11", default-features = false, features = ["json"] }
serde = { version = "1", features = ["derive"] }
serde_json = "1"
simple_logger = "4"
sysinfo = "0.30"
tokio = { version = "1", default-features = false, features = ["rt", "macros"] }
toml = "0.8"
