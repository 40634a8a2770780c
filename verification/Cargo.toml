[package]
name = "cargo_registry"
version = "0.1.0"
edition = "2021"
publish = false

[dependencies]
chrono = "0.4"
diesel = { version = "2", features = ["postgres", "chrono"] }
dotenv = "0.15"
rand = "0.8"
sentry = { version = "*", default-features = false }
serde = { version = "1", features = ["derive"] }
serde_json = "1"
sha2 = "0.10"
