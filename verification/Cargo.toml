[package]
name = "event_listen"
version = "0.1.0"
edition = "2021"
publish = false

[dependencies]
abscissa_core = "0.6"
ibc = "0.19"
ibc-relayer = "0.19"
itertools = "0.10"
tokio = { version = "1", features = ["rt-multi-thread"] }
tracing = "0.1"
