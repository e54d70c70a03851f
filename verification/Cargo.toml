[package]
name = "samokod"
version = "0.1.0"
edition = "2021"
publish = false

[dependencies]
agent-client-protocol = "=5.0.0"
jiff = "=0.2.39"
keepawake = "=0.6.1"
log = "=0.4.35"
notify = "=8.2.1"
serde = { version = "=1.0.229", features = ["derive"] }
serde_json = { version = "=1.0.154", features = ["preserve_order"] }
thiserror = "=2.0.21"
tokio = { version = "=1.54.1", features = ["rt-multi-thread", "macros", "sync", "time"] }
