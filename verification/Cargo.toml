[package]
name = "opcua_plc_bridge"
version = "0.2.2"
edition = "2021"
publish = false

[dependencies]
anyhow = "1"
async-trait = "0.1"
byteorder = "1"
bytes = "1"
chrono = "0.4"
clap = { version = "4", features = ["derive"] }
dashmap = "6"
futures = "0.3"
open62541 = "*"
rand = "0.10"
serde = { version = "1", features = ["derive"] }
serde_json = "1"
serde_yaml = "0.9"
thiserror = "2"
tokio = { version = "1", features = ["full"] }
tokio-modbus = { version = "*", default-features = false, features = ["tcp"] }
toml = "*"
tracing = "0.1"
tracing-subscriber = { version = "0.3", features = ["env-filter"] }
