[package]
name = "igris_memory"
version = "0.1.0"
edition = "2021"
publish = false

[dependencies]
rusqlite = { version = "=0.41.1", features = ["bundled-sqlcipher-vendored-openssl"] }
serde = { version = "=1.0.229", features = ["derive"] }
serde_json = "=1.0.154"
uuid = { version = "=1.29.0", features = ["v4"] }
tree-sitter = "=0.27.1"
tree-sitter-rust = "=0.24.2"
tree-sitter-typescript = "=0.23.2"
tree-sitter-c = "=0.24.2"
tree-sitter-c-sharp = "=0.23.5"
tree-sitter-java = "=0.23.5"
tree-sitter-php = "=0.25.1"
ignore = "=0.4.34"
clap = { version = "=4.6.7", features = ["derive"] }
dirs = "=7.0.0"
anyhow = "=1.0.104"
axum = "=0.8.9"
tokio = { version = "=1.54.1", features = ["rt-multi-thread", "macros", "net", "io-std"] }
tower-http = { version = "=0.7.1", features = ["cors", "trace"] }
tracing = "=0.1.44"
tracing-subscriber = { version = "=0.3.23", features = ["env-filter"] }
rmcp = { version = "=3.8.0", features = ["server", "transport-io", "macros"] }
ureq = { version = "=2.12.1", default-features = false }

[dev-dependencies]
tempfile = "=3.27.0"
