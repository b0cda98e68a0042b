[package]
name = "registrar"
version = "0.1.0"
edition = "2021"
publish = false

[dependencies]
async-trait = "=0.1.92"
failure = "=0.1.8"
log = { version = "=0.4.34", features = ["serde"] }
serde = { version = "=1.0.229", features = ["derive"] }
serde_json = "=1.0.154"
tokio = { version = "=1.54.1", features = ["macros", "rt", "rt-multi-thread", "sync", "time"] }
