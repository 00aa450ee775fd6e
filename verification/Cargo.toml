[package]
name = "stocks"
version = "0.1.0"
edition = "2021"
publish = false

[dependencies]
chrono = "*"
structopt = "*"
time = "*"
tokio = { version = "*", features = ["macros", "rt-multi-thread"] }
yahoo_finance_api = "*"
