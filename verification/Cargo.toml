[package]
name = "trace_propagation"
version = "0.1.0"
edition = "2021"
publish = false

[dependencies]
anyhow = "1"
hyper = { version = "0.14", features = ["client", "server", "http1", "tcp"] }
opentelemetry = "0.12"
opentelemetry-jaeger = "0.11"
structopt = "0.3"
tokio = { version = "1", features = ["macros", "rt-multi-thread"] }
