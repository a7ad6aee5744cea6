[package]
name = "document_sync"
version = "0.1.0"
edition = "2021"
publish = false

[dependencies]
dashmap = "=5.5.3"
ropey = "=1.6.1"
tokio = { version = "=1.47.5", features = ["io-std", "macros", "rt-multi-thread"] }
tower-lsp = "=0.20.0"
tree-sitter = "=0.20.10"
tree-sitter-rust = "=0.20.4"
