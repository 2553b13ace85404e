[package]
name = "amcheck"
version = "0.1.0"
edition = "2021"
publish = false

[dependencies]
config = { version = "0.13", default-features = false, features = ["json5"] }
error-stack = "0.4"
imap = "3.0.0-alpha.14"
imap-proto = "0.16"
regex = "1"
secrecy = { version = "0.8", features = ["serde"] }
serde = { version = "1", features = ["derive"] }
serde_regex = "1"
thiserror = "1"
time = { version = "0.3", features = ["formatting", "parsing", "local-offset"] }
tracing = "0.1"
tracing-subscriber = { version = "0.3", features = ["env-filter"] }

[dev-dependencies]
serde_json = "1"
