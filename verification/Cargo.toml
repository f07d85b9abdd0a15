[package]
name = "osmium"
version = "0.1.0"
edition = "2021"
publish = false

[dependencies]
regex = "1"
httparse = "1"
bytes = "0.4"
futures = "0.1"
futures-cpupool = "0.1"
tokio-core = "0.1"
tokio-io = "0.1"
tokio-proto = "0.1"
openssl = "0.10"
tokio-openssl = "0.2"
threadpool = "1"

[dev-dependencies]
hpack = "0.3"
