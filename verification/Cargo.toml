[package]
name = "redirector"
version = "0.1.0"
edition = "2021"
publish = false

[dependencies]
http = "0.2"
hyper = { version = "0.14", features = ["client", "server", "http1", "stream", "tcp", "runtime"] }
hyper-rustls = { version = "0.24", features = ["native-tokio", "http1", "tokio-runtime"] }
tokio = { version = "1", features = ["fs", "io-util", "macros", "rt"] }
futures = "0.3"
structopt = "0.3"
thiserror = "1"
env_logger = "0.9"
log = "0.4"
