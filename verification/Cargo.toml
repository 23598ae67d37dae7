[package]
name = "quantframe"
version = "0.1.0"
edition = "2021"
publish = false

[dependencies]
chrono = "=0.4.45"
directories = "=5.0.1"
once_cell = "=1.21.4"
polars = { version = "=0.41.3", default-features = false }
reqwest = { version = "=0.11.27", features = ["json"] }
serde = { version = "=1.0.229", features = ["derive"] }
serde_json = "=1.0.154"
sqlx = { version = "0.7", default-features = false }
tokio = { version = "=1.54.1", features = ["time", "rt"] }
