[package]
name = "course_ics"
version = "0.1.0"
edition = "2021"
publish = false

[dependencies]
icalendar = "*"
clap = { version = "*", features = ["derive"] }
