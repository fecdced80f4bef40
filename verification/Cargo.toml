[package]
name = "typlap"
version = "0.1.0"
edition = "2021"
publish = false

[dependencies]
anyhow = "1"
crossterm = "0.25"
pinyin = "0.9"
rand = "0.8"
rodio = { version = "0.16", default-features = false, features = ["wav"] }
