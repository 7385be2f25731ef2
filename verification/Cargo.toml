[package]
name = "connector-supabase"
version = "0.0.0"
edition = "2021"
publish = false

[dependencies]
anyhow = "1"
blake3 = "=1.8.7"
buffa = "=0.9.2"
connectrpc = { version = "=0.9.1", features = ["client"] }
faultline = "=0.1.0"
hex = "=0.4.3"
http = "1"
iddqd = "=0.5.0"
s2-sdk = "=0.35.3"
serde = { version = "1", features = ["derive"] }
serde_json = { version = "=1.0.154", features = ["preserve_order"] }
sha2 = "=0.10.9"
tempfile = "3"
thiserror = "2"
tokio = { version = "1", features = ["full"] }
tokio-postgres = "=0.7.18"
toml = "=1.1.8"
tracing = "0.1"
uuid = { version = "=1.29.0", features = ["v5", "v7"] }
