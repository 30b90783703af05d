[package]
name = "peerwire"
version = "0.1.0"
edition = "2021"
publish = false

[dependencies]
sha1 = "*"
rand = "*"
percent-encoding = "*"
serde = { version = "*", features = ["derive"] }
serde_bencode = "*"
serde_bytes = "*"
reqwest = { version = "*", default-features = false, features = ["blocking"] }
