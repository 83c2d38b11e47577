[package]
name = "process_supervisor"
version = "0.1.0"
edition = "2021"
publish = false

[dependencies]
relative-path = "1"
javalocate = "*"
serde = { version = "1", features = ["derive"] }
ureq = { version = "2", features = ["json"] }
