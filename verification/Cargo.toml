[package]
name = "ecapplog"
version = "1.0.0"
edition = "2021"
publish = false

[dependencies]
log = { version = "0.4", features = ["std"] }
serde_json = "1"
thiserror = "2"
tracing-core = "0.1"
tracing-subscriber = { version = "0.3", default-features = false, features = ["std", "registry"] }

[dev-dependencies]
tracing-log = "0.2"
