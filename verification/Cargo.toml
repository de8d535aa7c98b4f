[package]
name = "fileshare"
version = "0.1.0"
edition = "2021"
publish = false

[dependencies]
actix-web = "*"
actix-files = "*"
askama = "*"
base64 = "*"
bytesize = "*"
chrono = { version = "*", features = ["serde"] }
content_disposition = "*"
derive_more = { version = "*", features = ["display", "error"] }
futures = "*"
hex = "*"
infer = "*"
mime_guess = "*"
rand = "*"
regex = "*"
serde = { version = "*", features = ["derive"] }
sha2 = "*"
tokio = { version = "*", features = ["fs", "io-util", "macros", "rt-multi-thread"] }
tokio-util = { version = "*", features = ["io"] }
toml = "*"
