[package]
name = "realm"
version = "0.1.0"
edition = "2021"
publish = false

[dependencies]
kaminari = "=0.9.3"
tokio = { version = "=1.54.1", features = ["rt", "net", "io-util", "macros"] }
log = "=0.4.34"
clap = "=3.2.25"
serde = { version = "=1.0.229", features = ["derive"] }
libc = "=0.2.191"
daemonize = "=0.4.1"
