[package]
name = "club_records"
version = "0.1.0"
edition = "2021"
publish = false

[dependencies]
bson = "2"
mongodb = "2"
actix-web = "4"
actix-cors = "0.7"
futures = "0.3"
serde = { version = "1", features = ["derive"] }
