[package]
name = "gitfetch"
version = "0.1.0"
edition = "2021"
publish = false

[dependencies]
sha2 = "*"
chrono = "*"
urlencoding = "*"
serde = { version = "*", features = ["derive"] }
serde_json = "*"
clap = { version = "*", features = ["derive"] }
clap_complete = "*"
reqwest = { version = "*", default-features = false, features = ["blocking", "json"] }
