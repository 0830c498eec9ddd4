[package]
name = "yorishiro-core"
version = "0.1.0"
edition = "2021"
publish = false

[dependencies]
anyhow = "=1.0.104"
argon2 = { version = "=0.5.3", features = ["std"] }
async-trait = "=0.1.92"
chrono = { version = "=0.4.45", features = ["serde"] }
jsonschema = { version = "=0.60.2", default-features = false }
ort = { version = "=2.0.0-rc.15", default-features = false, features = ["load-dynamic"] }
pgvector = { version = "=0.4.1", features = ["sqlx"] }
rand = "=0.9.5"
reqwest = { version = "=0.12.28", default-features = false, features = ["json"] }
sea-query = { version = "=0.32.7", features = ["with-uuid", "with-chrono", "with-json", "postgres-vector"] }
sea-query-binder = { version = "=0.7.0", features = ["sqlx-postgres", "with-uuid", "with-chrono", "with-json", "postgres-vector"] }
serde = { version = "=1.0.229", features = ["derive"] }
serde_json = "=1.0.154"
sha2 = "=0.10.9"
sqlx = { version = "=0.8.6", default-features = false, features = ["runtime-tokio", "postgres", "uuid", "chrono", "json", "macros"] }
thiserror = "=2.0.21"
tokenizers = { version = "=0.23.2", default-features = false, features = ["onig"] }
tokio = { version = "=1.54.1", features = ["rt-multi-thread", "macros", "time"] }
tracing = "=0.1.44"
utoipa = { version = "=5.5.0", features = ["uuid", "chrono"] }
uuid = { version = "=1.29.0", features = ["v4", "serde"] }
