[package]
name = "taimi_hud"
version = "0.1.0"
edition = "2021"
publish = false

[dependencies]
anyhow = "=1.0.104"
bitflags = "2"
chrono = { version = "=0.4.45", features = ["serde"] }
futures = "=0.3.34"
glam = "0.30"
glamour = "=0.18.0"
glob = "=0.3.4"
json-strip-comments = "=3.1.2"
log = "=0.4.35"
magic_migrate = "=2.0.0"
ordered-float = { version = "=5.5.1", features = ["serde"] }
rand = "=0.9.5"
relative-path = "=2.0.3"
serde = { version = "=1.0.229", features = ["derive"] }
serde_json = "=1.0.154"
serde_repr = "=0.1.21"
strum = { version = "=0.28.0", features = ["derive"] }
tokio = { version = "=1.54.1", features = ["fs", "io-util", "macros", "rt-multi-thread", "sync", "time"] }
tokio-stream = "=0.1.19"
toml = "=1.1.8"
