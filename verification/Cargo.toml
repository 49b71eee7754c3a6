[package]
name = "nokv_meta"
version = "0.1.0"
edition = "2021"
publish = false

[dependencies]
sha2 = "=0.10.9"
tokio = { version = "=1.54.1", features = ["rt-multi-thread"] }
foundationdb = { version = "=0.11.0", features = ["embedded-fdb-include", "fdb-7_3"] }
holt = "=0.9.2"
