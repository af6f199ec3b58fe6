[package]
name = "ynab_sync"
version = "0.1.0"
edition = "2021"
publish = false

[dependencies]
rust-crypto = "=0.2.36"
sha1 = "*"
encoding_rs = "=0.8.42"
chrono = "=0.4.45"
serde = { version = "*", features = ["derive"] }
serde_json = "*"
reqwest = { version = "*", default-features = false, features = ["blocking", "json", "form"] }
dirs = "*"
dialoguer = "*"
