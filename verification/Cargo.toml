[package]
name = "mini_async_http"
version = "0.1.0"
edition = "2021"
publish = false

[dependencies]
chrono = "0.4"
crossbeam-channel = "0.5"
crossbeam-utils = "0.8"
env_logger = "0.9"
futures = "0.3"
httparse = "1"
log = "0.4"
mio = { version = "0.8", features = ["os-poll", "net"] }
num_cpus = "1"
regex = "1"
slab = "0.4"
