[package]
name = "cql_lsp"
version = "0.1.0"
edition = "2021"
publish = false

[dependencies]
tower-lsp = "0.20"
tokio = { version = "1", features = ["full"] }
futures = "0.3"
scylla = "1"
log = "0.4"
fern = "0.7"
chrono = "0.4"
dirs = "6"
once_cell = "1"
tree-sitter = "0.25"
tttx-tree-sitter-cql = "*"
