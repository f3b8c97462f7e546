[package]
name = "jellyfish"
version = "0.1.0"
edition = "2021"
publish = false

[dependencies]
percent-encoding = "*"
xxhash-rust = { version = "*", features = ["xxh64"] }
chrono = "*"
mime_guess = "*"
axum = "*"
tokio = { version = "*", features = ["full"] }
tower = "*"
tower-http = { version = "*", features = ["fs"] }
serde = { version = "*", features = ["derive"] }
serde_json = "*"
anyhow = "*"
dotenvy = "*"
shellexpand = "*"
