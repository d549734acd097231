[package]
name = "actix-web-rsvp"
version = "0.1.0"
edition = "2021"
publish = false

[dependencies]
actix-files = "0.6"
actix-http = { version = "3", default-features = false }
actix-web = { version = "4", default-features = false, features = ["macros"] }
awc = { version = "3", default-features = false }
chrono = { version = "0.4", default-features = false, features = ["std", "clock", "serde"] }
clap = { version = "4", features = ["derive"] }
csv = "1"
derive_more = { version = "0.99", default-features = false, features = ["display"] }
env_logger = "0.10"
lettre = { version = "0.10", default-features = false, features = ["builder", "sendmail-transport", "tokio1"] }
log = "0.4"
serde = { version = "1", features = ["derive"] }
serde_json = "1"
tempfile = "3"
tinytemplate = "1"
tokio = { version = "1", features = ["sync"] }
