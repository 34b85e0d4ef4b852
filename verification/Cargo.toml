[package]
name = "multipart_upload"
version = "0.1.0"
edition = "2021"
publish = false

[dependencies]
futures = "0.3"
pyo3 = { version = "0.20", features = ["extension-module"] }
pyo3-asyncio = { version = "0.20", features = ["tokio-runtime"] }
reqwest = { version = "0.11", features = ["stream"] }
tokio = { version = "1", features = ["rt-multi-thread", "fs", "io-util", "time", "sync"] }
tokio-util = { version = "0.7", features = ["codec"] }
