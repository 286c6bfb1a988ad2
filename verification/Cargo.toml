[package]
name = "pg_replication"
version = "0.1.0"
edition = "2021"
publish = false

[dependencies]
anyhow = "=1.0.104"
chrono = "=0.4.45"
libpq-sys = "=0.8.0"
tokio = { version = "=1.53.2", features = ["rt-multi-thread", "macros", "signal", "time"] }
tracing = "=0.1.44"
tracing-appender = "=0.2.5"
tracing-subscriber = { version = "=0.3.23", features = ["env-filter", "chrono", "json"] }
