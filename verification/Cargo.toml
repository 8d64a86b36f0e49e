[package]
name = "i3ipc_client"
version = "0.1.0"
edition = "2021"
publish = false

[dependencies]
bytes = "0.4"
futures = "0.1"
i3ipc-types = "*"
serde = { version = "1", features = ["derive"] }
serde_json = "1"
tokio-io = "0.1"
tokio-reactor = "0.1"
tokio-uds = "0.2"
