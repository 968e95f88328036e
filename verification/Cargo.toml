[package]
name = "batch_loader"
version = "0.1.0"
edition = "2021"
publish = false

[dependencies]
chrono = "0.4"
diesel = { version = "1.4", features = ["mysql", "r2d2", "chrono"] }
dotenv = "0.15"
juniper = { version = "0.15", default-features = false }
serde = { version = "1", features = ["derive"] }
uuid = { version = "0.8", features = ["v4", "serde"] }
