[package]
name = "ical"
version = "0.1.0"
edition = "2021"
publish = false

[dependencies]
chrono = { version = "0.4", default-features = false, features = ["std"] }
chrono-tz = { version = "0.10", default-features = false, features = ["std"] }
rrule = { version = "0.14", default-features = false, features = ["exrule"] }
