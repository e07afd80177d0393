[package]
name = "pdf_images"
version = "0.1.0"
edition = "2021"
publish = false

[dependencies]
anyhow = "*"
aws-config = { version = "*", default-features = false, features = ["behavior-version-latest", "default-https-client", "rt-tokio"] }
aws-sdk-s3 = { version = "*", default-features = false, features = ["behavior-version-latest", "default-https-client", "rt-tokio"] }
axum = { version = "*", features = ["multipart"] }
blake3 = "*"
image = { version = "*", default-features = false, features = ["default-formats"] }
parenv = "*"
pdfium-render = "*"
serde = { version = "*", features = ["derive"] }
thiserror = "*"
tokio = { version = "*", features = ["macros", "net", "rt-multi-thread", "signal"] }
tower-http = { version = "*", features = ["limit", "trace"] }
tracing = "*"
tracing-subscriber = { version = "*", features = ["env-filter"] }
