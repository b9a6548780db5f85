[package]
name = "embed_batcher"
version = "0.1.0"
edition = "2021"
publish = false

[dependencies]
anyhow = "=1.0.104"
dotenvy = "=0.15.7"
fastembed = { version = "=7.5.0", default-features = false, features = ["hf-hub-rustls-tls", "ort-load-dynamic"] }
serde = { version = "=1.0.229", features = ["derive"] }
tako-rs = { version = "=2.5.0", features = ["simd-json-impl"] }
tokio = { version = "=1.54.1", default-features = false, features = ["macros", "net", "rt-multi-thread", "sync", "time"] }
tracing = "=0.1.44"
tracing-subscriber = { version = "=0.3.23", default-features = false, features = ["fmt", "std"] }
