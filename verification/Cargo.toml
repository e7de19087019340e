[package]
name = "iamcommitted"
version = "1.0.0"
edition = "2021"
publish = false

[dependencies]
chrono = "0.4"
clap = { version = "4", features = ["derive"] }
colored = "2"
fern = "0.7"
log = "0.4"
openai-api-rs = "*"
tempfile = "3"
tokio = { version = "1", features = ["full"] }

[dev-dependencies]
regex = "1"
