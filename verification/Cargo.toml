[package]
name = "prost-uuid-bytes"
version = "0.1.0"
edition = "2021"
publish = false

[dependencies]
prost = "0.14"
uuid = { version = "1", features = ["v3", "v4", "v5", "v7", "v8", "serde"] }
serde = { version = "1", features = ["derive"] }
derive_more = { version = "2", features = ["as_ref", "constructor", "deref", "deref_mut", "display", "from", "from_str", "into"] }
