[package]
name = "extract_transform_load"
version = "0.1.0"
edition = "2021"
publish = false

[dependencies]
chrono = "=0.4.45"
chrono-tz = "=0.5.3"
clickhouse-rs = "=0.1.21"
futures = { version = "=0.3.34", features = ["compat"] }
reqwest = { version = "=0.13.5", default-features = false, features = ["json"] }
serde = { version = "=1.0.229", features = ["derive"] }
serde_yaml = "=0.9.34"
tokio = { version = "=1.53.2", features = ["macros", "rt-multi-thread", "time"] }
