[package]
name = "jenkinsfile_ls"
version = "0.1.0"
edition = "2021"
publish = false

[dependencies]
toml = "*"
serde_json = "*"
tokio = { version = "*", features = ["full"] }
tower-lsp = "*"
reqwest = { version = "*", default-features = false, features = ["multipart", "rustls-tls"] }
dirs = "*"
tracing = "*"
tracing-subscriber = { version = "*", features = ["env-filter"] }
thiserror = "*"
