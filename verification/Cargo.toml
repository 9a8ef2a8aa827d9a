[package]
name = "sd_ingest"
version = "0.1.0"
edition = "2021"
publish = false

[dependencies]
quick-xml = "*"
hex = "*"
arrow-array = "*"
arrow-schema = "*"
iceberg = "*"
tokio = { version = "*", features = ["macros", "rt-multi-thread"] }
