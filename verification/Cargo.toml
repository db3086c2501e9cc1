[package]
name = "laya"
version = "0.1.0"
edition = "2021"
publish = false

[dependencies]
bytes = "=1.12.1"
httpdate = "=1.0.3"
byte-unit = "5"
clap = { version = "4", features = ["derive"] }
color-eyre = "0.6"
futures = "0.3"
http-body = "1"
http-body-util = "0.1"
hyper = { version = "1", features = ["server", "http1", "http2"] }
hyper-util = { version = "0.1", features = ["tokio", "server-auto", "service"] }
mediatype = "=0.23.0"
mozjpeg = "=0.10.13"
opendal = { version = "=0.59.5", default-features = false, features = ["services-fs", "services-s3", "layers-tracing"] }
serde_json = "1"
tokio = { version = "1", features = ["rt-multi-thread", "net", "sync", "time"] }
tokio-stream = "0.1"
tokio-util = "0.7"
tower = { version = "0.5", features = ["util"] }
tower-http = { version = "0.6", features = ["trace", "timeout", "sensitive-headers"] }
tracing = "0.1"
tracing-error = "0.2"
tracing-subscriber = { version = "0.3", features = ["env-filter", "json"] }
