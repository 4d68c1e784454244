[package]
name = "songbird"
version = "0.1.0"
edition = "2021"
publish = false

[dependencies]
symphonia = "=0.6.1"
symphonia-core = "=0.6.1"
opus2 = { version = "=0.4.0", default-features = false, features = ["backend-mousiki"] }
serde = { version = "=1.0.229", features = ["derive"] }
serde_json = "=1.0.154"
tracing = "=0.1.44"
flume = "=0.12.0"
davey = "=0.2.0"
