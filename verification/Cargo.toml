[package]
name = "testme"
version = "0.1.0"
edition = "2021"
publish = false

[dependencies]
adler2 = "2"
linkme = "0.3"
tokio = { version = "1", features = ["rt-multi-thread", "sync", "time"] }
syn = { version = "2", features = ["full"] }
quote = "1"
proc-macro2 = "1"
