[package]
name = "matter_stack"
version = "0.1.0"
edition = "2021"
publish = false

[dependencies]
async-executor = "=1.14.1"
async-io = "=2.6.0"
async-trait = "=0.1.92"
base64 = "=0.22.1"
embassy-futures = "=0.1.2"
embassy-time = "=0.5.1"
env_logger = "=0.11.11"
futures-lite = "=2.6.1"
if-addrs = "=0.15.0"
log = "=0.4.35"
rand = "=0.8.8"
serde = { version = "=1.0.229", features = ["derive"] }
serde_json = "=1.0.154"
socket2 = "=0.6.5"
static_cell = "=2.1.1"
tokio = { version = "=1.54.1", features = ["sync", "rt", "time", "macros"] }
tracing = "=0.1.44"
