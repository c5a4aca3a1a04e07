[package]
name = "volo-mini-redis"
version = "0.1.0"
edition = "2021"
publish = false

[dependencies]
config = "=0.11.0"
serde = { version = "=1.0.229", features = ["derive"] }
tracing = "=0.1.44"
tracing-subscriber = "=0.3.23"
lazy_static = "=1.5.1"
volo = "=0.12.4"
tokio = { version = "=1.54.1", features = ["macros", "rt-multi-thread"] }
