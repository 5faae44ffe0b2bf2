[package]
name = "cvardump"
version = "1.0.0"
edition = "2021"
publish = false

[dependencies]
clap = "=2.34.0"
csv = "=1.4.0"
rcon = { version = "=0.6.0", features = ["rt-tokio"] }
regex = "=1.13.1"
tokio = { version = "=1.54.1", features = ["macros", "rt-multi-thread"] }
