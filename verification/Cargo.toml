[package]
name = "localhost"
version = "0.1.0"
edition = "2021"
publish = false

[dependencies]
httparse = "1"
serde = { version = "1", features = ["derive"] }
serde_json = "1"
uuid = { version = "1", features = ["v4"] }
mime_guess = "2"
clap = { version = "4", features = ["derive"] }
colored = "2"
dialoguer = "0.11"
indicatif = "0.17"
tabwriter = "1"
chrono = "0.4"
libc = "0.2"
