[package]
name = "core_data"
version = "0.1.0"
edition = "2021"
publish = false

[dependencies]
serde = { version = "1", features = ["derive"] }
serde_json = "=1.0.154"
datalogic-rs = "=1.0.10"
sonyflake = "=0.3.0"
time = { version = "=0.3.55", features = ["serde-well-known"] }
quick-xml = { version = "=0.37.5", features = ["serialize"] }
open-payments-iso20022 = { version = "=1.0.10", features = ["pacs", "derive_serde", "derive_debug"] }
open-payments-common = "=1.0.9"
rdkafka = "=0.36.2"
tokio = { version = "1", features = ["full"] }
futures = "0.3"
mongodb = "=2.8.2"
tracing = "0.1"
tracing-subscriber = { version = "0.3", features = ["env-filter"] }
thiserror = "1"
actix-web = { version = "4", default-features = false, features = ["macros", "compress-gzip"] }
uuid = { version = "1", features = ["v4"] }
