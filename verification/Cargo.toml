[package]
name = "pms"
version = "0.1.0"
edition = "2021"
publish = false

[dependencies]
actix-cors = "0.6"
actix-multipart = "0.6"
actix-service = "2"
actix-web = "4"
async-recursion = "1"
chrono = "0.4"
futures = "0.3"
jsonwebtoken = "8"
mime_guess = "2"
mongodb = "2"
pwhash = "1"
regex = "1"
serde = { version = "1", features = ["derive"] }
