[package]
name = "jsworkers"
version = "0.1.0"
edition = "2021"
publish = false

[dependencies]
bitsparrow = "*"
url = "*"
uuid = { version = "*", features = ["v4"] }
serde = { version = "*", features = ["derive"] }
serde_json = "*"
ws = "*"
iron = "*"
rusqlite = { version = "*", features = ["bundled"] }
