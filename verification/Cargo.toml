[package]
name = "setrs"
version = "0.1.0"
edition = "2021"
publish = false

[dependencies]
itertools = "0.13"
rand = "0.8"
paste = "1"
criterion = { version = "0.5", default-features = false, features = ["cargo_bench_support"] }
