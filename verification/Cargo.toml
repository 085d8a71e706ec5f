[package]
name = "role_manager"
version = "0.1.0"
edition = "2021"
publish = false

[dependencies]
chrono = "0.4"
csv = "1"
itertools = "0.12"
json5 = "0.4"
poise = "0.6"
reqwest = { version = "0.12", default-features = false, features = ["json", "rustls-tls"] }
sea-orm = { version = "0.12", default-features = false, features = ["macros", "with-chrono"] }
serde = { version = "1", features = ["derive"] }
serde_json = "1"
serenity = "0.12"
speedate = "*"
tokio = { version = "1", features = ["full"] }
toml = "0.8"
tower = { version = "0.4", features = ["limit", "util"] }
tracing = "0.1"
tracing-subscriber = "0.3"
urlencoding = "2"
