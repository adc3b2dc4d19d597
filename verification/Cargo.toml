[package]
name = "hyper"
version = "1.0.0"
edition = "2021"
publish = false

[dependencies]
atomic-waker = "1"
bytes = "1"
futures-channel = "0.3"
futures-core = "0.3"
futures-util = { version = "0.3", default-features = false, features = ["std", "alloc"] }
h2 = "0.4"
http = "1"
http-body = "1"
http-body-util = "0.1"
httparse = "1"
httpdate = "1"
pin-project-lite = "0.2"
pin-utils = "0.1"
tokio = { version = "1", features = ["sync"] }
want = "0.3"

[dev-dependencies]
tokio-test = "0.4"
