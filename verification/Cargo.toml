[package]
name = "sanctifier-core"
version = "0.1.0"
edition = "2021"
publish = false

[dependencies]
syn = { version = "2", features = ["full"] }
proc-macro2 = { version = "1", features = ["span-locations"] }
quote = "1"
regex = "1"
z3 = "0.12"
serde = { version = "1", features = ["derive"] }
serde_json = "1"
thiserror = "1"
anyhow = "1"
clap = { version = "4", features = ["derive"] }
chrono = "0.4"
tokio = { version = "1", features = ["rt-multi-thread"] }
warp = "0.3"
tracing-subscriber = { version = "0.3", features = ["env-filter", "json"] }
