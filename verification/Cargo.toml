[package]
name = "auction_bot"
version = "0.1.0"
edition = "2021"
publish = false

[dependencies]
chrono = "0.4"
regex = "1"
serenity = { version = "0.10", features = ["collector"] }
diesel = { version = "1.4", features = ["postgres", "r2d2", "chrono"] }
tokio = { version = "1", features = ["rt-multi-thread", "time", "macros"] }
