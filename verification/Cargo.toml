[package]
name = "join_me_maybe_core"
version = "0.1.0"
edition = "2021"
publish = false

[dependencies]
atomic_refcell = "0.1"
futures = "0.3"
proc-macro2 = "1"
quote = "1"
syn = { version = "2", features = ["full"] }

[dev-dependencies]
tokio = { version = "1", features = ["rt", "time", "sync"] }
tokio-stream = "0.1"
