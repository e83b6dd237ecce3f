[package]
name = "audio_relay"
version = "0.1.0"
edition = "2021"
publish = false

[dependencies]
serde = { version = "=1.0.229", features = ["derive"] }
serde_json = "=1.0.154"
hyper = { version = "=0.14.32", features = ["server", "http1", "tcp", "runtime"] }
tokio = { version = "=1.54.1", features = ["rt-multi-thread", "macros", "net", "time"] }
log = "=0.4.35"
simplelog = "=0.11.2"
opus = "=0.3.1"
wasapi = "=0.26.0"
webrtc = "=0.6.0"
actix-web = "=4.18.1"
actix-files = "=0.6.10"
