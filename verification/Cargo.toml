[package]
name = "drone"
version = "0.1.0"
edition = "2021"
publish = false

[dependencies]
sequence_trie = "0.3"
chrono = "0.4"
serde = { version = "1", features = ["derive"] }
serde_json = "1"
serde_yaml = "0.9"
actix-web = { version = "4", default-features = false, features = ["macros"] }
actix-cors = "0.7"
reqwest = { version = "0.12", default-features = false, features = ["json"] }
moka = { version = "0.12", features = ["future"] }
tokio = { version = "1", features = ["sync"] }
humantime = "2"
