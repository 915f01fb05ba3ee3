[package]
name = "storage"
version = "0.1.0"
edition = "2021"
publish = false

[dependencies]
async-trait = "=0.1.92"
byteser = "=0.1.1"
byteser_derive = "=0.1.1"
clap = { version = "=4.5.61", features = ["derive"] }
dashmap = "=6.1.0"
tokio = { version = "=1.47.5", features = ["rt-multi-thread", "macros", "net", "io-util"] }

[dev-dependencies]
tempfile = "=3.20.0"
