[package]
name = "kanji_quiz"
version = "0.1.0"
edition = "2021"
publish = false

[dependencies]
rand = "0.8"
serde = { version = "1", features = ["derive"] }
serde_json = "1"
colored = "2"
crossterm = "0.27"
open = "5"
