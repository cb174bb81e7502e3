[package]
name = "iocost_bot"
version = "0.1.0"
edition = "2021"
publish = false

[dependencies]
json = "*"
linkify = "*"
md5 = "*"
reqwest = { version = "*", default-features = false, features = ["blocking"] }
git2 = { version = "*", default-features = false }
