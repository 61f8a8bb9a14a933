[package]
name = "idm"
version = "0.1.0"
edition = "2021"
publish = false

[dependencies]
uuid = { version = "=1.29.0", features = ["v7", "serde"] }
time = "=0.3.55"
argon2 = "=0.5.3"
base64 = "=0.22.1"
sha2 = "=0.10.9"
rand = "=0.8.8"
garde = { version = "=0.22.1", features = ["derive", "email"] }
jsonwebtoken = "=9.3.1"
serde = { version = "=1.0.229", features = ["derive"] }
anyhow = "=1.0.104"
thiserror = "=2.0.21"
axum = "=0.8.9"
axum-extra = { version = "=0.10.3", features = ["cookie"] }
tokio = { version = "=1.54.1", features = ["rt-multi-thread", "macros"] }
utoipa = { version = "=5.5.0", features = ["uuid"] }
utoipa-axum = "=0.2.0"
async-trait = "=0.1.92"
sqlx = { version = "0.9", default-features = false, features = ["postgres", "runtime-tokio", "uuid", "time", "macros"] }
sea-query = { version = "1", features = ["derive", "backend-postgres", "with-uuid", "with-time"] }
sea-query-sqlx = { version = "*", features = ["sqlx-postgres", "with-uuid", "with-time"] }
