[package]
name = "pyruvate"
version = "0.1.0"
edition = "2021"
publish = false

[dependencies]
crossbeam-channel = "=0.5.17"
libsystemd = "=0.7.2"
mio = { version = "=1.2.4", features = ["net", "os-poll"] }
nix = { version = "=0.29.0", features = ["fs"] }
threadpool = "=1.8.1"
