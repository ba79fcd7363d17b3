[package]
name = "kisd"
version = "0.1.0"
edition = "2021"
publish = false

[dependencies]
bytes = "1"
clap = { version = "4", features = ["derive"] }
clap-num = "1"
env_logger = "0.11"
futures-util = { version = "0.3", features = ["sink"] }
log = "0.4"
nix = { version = "0.30", features = ["fs", "term"] }
nusb = { version = "0.2", features = ["tokio"] }
thiserror = "2"
tokio = { version = "1", features = ["fs", "io-util", "macros", "net", "rt", "time"] }
tokio-util = { version = "0.7", features = ["io"] }
