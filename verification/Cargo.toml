[package]
name = "wk_predictions"
version = "0.1.0"
edition = "2021"
publish = false

[dependencies]
actix = "=0.13.5"
actix-files = "0.6"
actix-web = { version = "=4.18.1", features = ["secure-cookies"] }
bcrypt = "=0.13.0"
chrono = { version = "=0.4.45", features = ["serde"] }
csv = "=1.4.0"
diesel = { version = "=1.4.8", features = ["postgres", "chrono"] }
diesel-derive-enum = { version = "=1.1.2", features = ["postgres"] }
dotenv = "=0.15.0"
env_logger = "=0.5.13"
failure = "=0.1.8"
futures = "=0.3.34"
lazy_static = "=1.5.1"
rand = "=0.5.6"
serde = "=1.0.229"
serde_derive = "=1.0.229"
tera = "=1.20.1"
