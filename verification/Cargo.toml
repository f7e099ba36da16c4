[package]
name = "crossword_repo"
version = "0.1.0"
edition = "2021"
publish = false

[dependencies]
serde_json = "*"
diesel = { version = "*", features = ["sqlite", "r2d2", "chrono"] }
libsqlite3-sys = { version = "*", features = ["bundled"] }
chrono = { version = "*", default-features = false, features = ["clock"] }
actix-web = { version = "*", default-features = false }
