[package]
name = "mini_payments_engine"
version = "0.1.0"
edition = "2021"
publish = false

[dependencies]
indexmap = "2"
rust_decimal = { version = "1", features = ["serde-with-float"] }
anyhow = "1"
clap = { version = "4", features = ["derive"] }
csv = "1"
serde = { version = "1", features = ["derive"] }
thiserror = "1"
tokio = { version = "1", features = ["rt-multi-thread", "macros", "sync"] }
