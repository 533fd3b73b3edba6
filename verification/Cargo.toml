[package]
name = "mewchain"
version = "0.1.0"
edition = "2021"
publish = false

[dependencies]
hex = "=0.4.3"
ed25519-dalek = { version = "=2.2.0", features = ["rand_core"] }
rand = "=0.8.8"
serde = { version = "=1.0.229", features = ["derive"] }
axum = "=0.7.9"
tokio = { version = "=1.54.1", features = ["full"] }
tower-http = { version = "=0.5.2", features = ["fs"] }
firestore = "=0.61.1"
teloxide = "=0.17.0"
takecell = "=0.1.1"
dotenvy = "=0.15.7"
chrono = "=0.4.45"
