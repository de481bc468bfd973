[package]
name = "rss2email"
version = "0.1.0"
edition = "2021"
publish = false

[dependencies]
xml-rs = "=1.0.0"
docopt = "=1.1.1"
serde = { version = "*", features = ["derive"] }
sqlite = "=0.37.4"
reqwest = { version = "=0.13.5", default-features = false, features = ["blocking"] }
sendgrid = { version = "=0.27.2", features = ["blocking"] }
