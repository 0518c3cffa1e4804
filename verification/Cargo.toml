[package]
name = "taldawasm"
version = "0.1.0"
edition = "2021"
publish = false

[dependencies]
http = "0.2"
base64 = "0.21"
bytes = "1"
axum = "0.6"
tokio = { version = "1", features = ["macros", "rt-multi-thread"] }
tower = { version = "0.4", features = ["load-shed", "limit", "timeout", "util"] }
tower-http = { version = "0.4", features = ["compression-gzip", "limit"] }
serde = { version = "1", features = ["derive"] }
hyper = { version = "0.14", features = ["full"] }
http-body = "0.4"
wasmtime = { version = "14", default-features = false, features = ["cranelift", "component-model"] }
anyhow = "1"
