[package]
name = "domainforge_lsp"
version = "0.1.0"
edition = "2021"
publish = false

[dependencies]
sea-core = "*"
pest = "*"
blake3 = "*"
tower-lsp = "*"
tokio = { version = "*", features = ["full"] }
lru = "*"
serde = { version = "*", features = ["derive"] }
serde_json = "*"
log = "*"
env_logger = "*"
anyhow = "*"
