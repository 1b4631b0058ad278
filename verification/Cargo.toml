[package]
name = "rpc_codec"
version = "0.1.0"
edition = "2021"
publish = false

[dependencies]
bincode = "1"
bytes = "0.5"
prost = "0.6"
protobuf = "2"
serde = { version = "1", features = ["derive"] }
