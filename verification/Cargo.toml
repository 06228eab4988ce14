[package]
name = "mystore"
version = "0.1.0"
edition = "2021"
publish = false

[dependencies]
actix-cors = "0.6"
actix-identity = "0.4"
actix-rt = "2"
actix-web = "4"
bcrypt = "=0.19.3"
chrono = { version = "=0.4.45", features = ["serde"] }
csrf-token = "=0.0.1"
diesel = { version = "=1.4.8", features = ["postgres", "r2d2", "chrono"] }
dotenv = "=0.15.0"
env_logger = "=0.7.1"
futures-util = "=0.3.34"
hex = "=0.4.3"
jsonwebtoken = "=7.2.0"
juniper = "=0.14.2"
log = "=0.4.34"
serde = { version = "=1.0.229", features = ["derive"] }
serde_json = "=1.0.154"
