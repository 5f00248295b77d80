[package]
name = "course_events"
version = "0.1.0"
edition = "2021"
publish = false

[dependencies]
chrono = "0.4"
serde = { version = "1", features = ["derive"] }
toml = "*"
url = "2"
ics = "*"
uuid = { version = "*", features = ["v4"] }
