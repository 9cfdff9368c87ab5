[package]
name = "async_io_converse"
version = "0.1.0"
edition = "2021"
publish = false

[dependencies]
async-io-typed = "*"
bincode = "1"
futures-core = "0.3"
futures-io = "0.3"
futures-util = { version = "0.3", features = ["sink"] }
serde = { version = "1", features = ["derive"] }
tokio = { version = "1", features = ["sync", "time", "rt", "rt-multi-thread", "macros"] }

[dev-dependencies]
tokio-util = "0.7"
rand = "0.8"
