[package]
name = "lob"
version = "0.1.0"
edition = "2021"
publish = false

[dependencies]
actix-web = "4"
async-trait = "0.1"
serde = { version = "1", features = ["derive"] }
thiserror = "1"
