[package]
name = "price_series_stats"
version = "0.1.0"
edition = "2021"
publish = false

[dependencies]
chrono = "*"
clap = { version = "*", features = ["derive"] }
yahoo_finance_api = "*"
tokio = { version = "*", features = ["rt-multi-thread", "macros"] }
