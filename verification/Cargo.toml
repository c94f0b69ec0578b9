[package]
name = "hoos_hungry"
version = "0.1.0"
edition = "2021"
publish = false

[dependencies]
anyhow = "*"
async-graphql = "*"
async-graphql-axum = "*"
axum = "*"
hex = "*"
redis = { version = "*", features = ["tokio-comp"] }
serde = { version = "*", features = ["derive"] }
serde_json = "*"
sha2 = "*"
sqlx = { version = "*", features = ["runtime-tokio", "postgres"] }
tokio = { version = "*", features = ["full"] }
tracing = "*"
tracing-subscriber = { version = "*", features = ["env-filter"] }
