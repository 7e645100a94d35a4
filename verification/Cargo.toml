[package]
name = "stock_crawler"
version = "0.1.0"
edition = "2021"
publish = false

[dependencies]
anyhow = "*"
chrono = "*"
once_cell = "*"
rust_decimal = "*"
serde = { version = "*", features = ["derive"] }
serde_json = "*"
sqlx = { version = "*", features = ["runtime-tokio", "tls-rustls", "postgres", "chrono", "rust_decimal", "derive"] }
tokio = { version = "*", features = ["rt-multi-thread", "macros", "time", "sync"] }
