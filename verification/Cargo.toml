[package]
name = "page_title"
version = "0.1.0"
edition = "2021"
publish = false

[dependencies]
scraper = "*"
reqwest = { version = "*", default-features = false }
worker = "*"
console_error_panic_hook = "*"

[dev-dependencies]
serde_json = "*"
