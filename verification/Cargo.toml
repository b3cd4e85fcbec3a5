[package]
name = "mip_solver_node"
version = "0.1.0"
edition = "2021"
publish = false

[dependencies]
async-nats = "0.38"
axum = "0.7"
futures-util = "0.3"
libloading = "0.8"
redis = { version = "0.27", default-features = false, features = ["tokio-comp"] }
serde = { version = "1", features = ["derive"] }
serde_json = "1"
sqlx = { version = "0.8", default-features = false, features = ["runtime-tokio", "postgres", "json"] }
tokio = { version = "1", features = ["full"] }
tower-http = { version = "0.6", features = ["trace"] }
tracing = "0.1"
uuid = { version = "1", features = ["v4"] }
