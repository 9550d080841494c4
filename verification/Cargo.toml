[package]
name = "arangodb_types"
version = "0.1.0"
edition = "2021"
publish = false

[dependencies]
anyhow = "=1.0.104"
arangors = { version = "=0.6.0", features = ["arango3_7"] }
arcstr = { version = "=1.2.0", features = ["serde"] }
async-trait = "=0.1.92"
chrono = "=0.4.45"
log = "=0.4.34"
nanoid = "=0.4.0"
rand = "=0.8.8"
serde = { version = "=1.0.229", features = ["derive"] }
serde_json = "=1.0.154"
tokio = { version = "=1.54.1", features = ["rt", "rt-multi-thread", "sync", "time", "macros"] }
urlencoding = "=2.1.3"
