[package]
name = "table_range"
version = "0.1.0"
edition = "2021"
publish = false

[dependencies]
pgrx = { version = "=0.18.1", features = ["pg18"] }
