[package]
name = "sourcepawn_lsp"
version = "0.1.0"
edition = "2021"
publish = false

[dependencies]
regex = "1"
lsp-types = "*"
crossbeam = "0.8"
command-group = "*"
rand = "0.8"
serde = { version = "1", features = ["derive"] }
serde_json = "1"
flate2 = "1"
