[package]
name = "ripgrep_web"
version = "0.0.2"
edition = "2021"
publish = false

[dependencies]
axum = "0.8"
bzip2 = "0.5"
flate2 = "1"
grep-matcher = "0.1"
grep-regex = "0.1"
grep-searcher = "0.1"
humantime = "2"
ignore = "0.4"
serde = { version = "1", features = ["derive"] }
serde_json = "1"
thiserror = "2"
tokio = { version = "1", features = ["macros", "net", "rt-multi-thread", "signal", "sync", "time"] }
tokio-stream = "0.1"
tower-http = { version = "0.6", features = ["compression-gzip", "trace"] }
tracing = "0.1"
tracing-subscriber = { version = "0.3", features = ["env-filter"] }
xz2 = "0.1"
zip = "2"
zstd = "0.13"
