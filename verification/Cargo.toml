[package]
name = "gemini_client"
version = "0.1.0"
edition = "2021"
publish = false

[dependencies]
bytecount = "*"
futures = "*"
gcp_auth = "*"
reqwest = { version = "*", default-features = false, features = ["json", "stream", "rustls-tls"] }
reqwest-streams = { version = "*", features = ["json"] }
serde = { version = "1", features = ["derive"] }
serde_json = "1"
tokio = { version = "*", features = ["macros", "rt", "sync"] }
