[package]
name = "knowledgeos_backend"
version = "0.1.0"
edition = "2021"
publish = false

[dependencies]
axum = "0.8"
hex = "0.4"
pulldown-cmark = { version = "0.13", default-features = false }
rusqlite = { version = "0.37", features = ["bundled"] }
serde = { version = "1", features = ["derive"] }
serde_json = "1"
sha2 = "0.10"
thiserror = "2"
time = { version = "0.3", features = ["formatting", "macros"] }
tokio = { version = "1", features = ["macros", "rt-multi-thread", "net", "signal"] }
tracing = "0.1"
tracing-subscriber = { version = "0.3", features = ["env-filter", "json"] }
yaml-rust2 = "0.10"

[dev-dependencies]
tempfile = "3"
