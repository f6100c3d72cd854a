[package]
name = "bycat_http"
version = "0.1.0"
edition = "2021"
publish = false

[dependencies]
http = "=1.5.0"
http-body = "=1.1.0"
http-body-util = "=0.1.5"
hyper = { version = "=1.12.0", features = ["server", "http1"] }
hyper-util = { version = "=0.1.21", features = ["tokio"] }
relative-path = "=1.9.3"
cookie = { version = "=0.18.2", features = ["percent-encode", "signed", "private"] }
bytes = "=1.12.1"
serde = "=1.0.229"
serde_json = "=1.0.154"
async-process = "=2.5.0"
mime = "=0.3.17"
multer = "=3.1.0"
reqwest = { version = "=0.12.28", default-features = false }
tokio = { version = "=1.54.1", features = ["net", "time", "rt"] }
futures-core = "=0.3.34"
