[package]
name = "bmsg_core"
version = "0.2.0"
edition = "2021"
publish = false

[dependencies]
serde = { version = "=1.0.229", features = ["derive"] }
serde_json = "=1.0.154"
uuid = { version = "=1.29.0", features = ["v4"] }
chrono = "=0.4.45"
sha2 = "=0.10.9"
hex = "=0.4.3"
thiserror = "=1.0.69"
async-trait = "=0.1.92"
reqwest = { version = "=0.12.28", default-features = false, features = ["json"] }
sqlx = { version = "=0.8.6", default-features = false, features = ["postgres", "runtime-tokio", "macros"] }
tokio = { version = "=1.54.1", features = ["macros", "rt-multi-thread"] }
http-body-util = "=0.1.5"
vercel_runtime = "=2.4.1"
worker = { version = "=0.8.7", features = ["d1"] }
wasm-bindgen = "=0.2.130"
