[package]
name = "alps_ui"
version = "0.1.0"
edition = "2021"
publish = false

[dependencies]
chrono = "=0.4.45"
xxhash-rust = { version = "=0.8.19", features = ["xxh64", "const_xxh64"] }
serde = { version = "=1.0.229", features = ["derive"] }
serde_json = "=1.0.154"
tokio = { version = "=1.54.1", features = ["process", "io-util", "time", "fs", "macros", "rt-multi-thread"] }
dioxus = { version = "=0.7.10", default-features = false, features = ["macro", "html", "hooks", "signals", "router", "launch", "web"] }
