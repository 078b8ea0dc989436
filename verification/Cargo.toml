[package]
name = "pg_hierarchy_bench"
version = "0.1.0"
edition = "2021"
publish = false

[dependencies]
rand = "0.8"
uuid = "1"
postgres = { version = "0.19", features = ["with-uuid-1"] }
clap = "4"
