[package]
name = "item_labels"
version = "0.1.0"
edition = "2021"
publish = false

[dependencies]
base64 = "0.22"
chrono = "0.4"
image = { version = "0.24", default-features = false, features = ["png"] }
printpdf = { version = "0.7", default-features = false }
qrcode = { version = "0.14", default-features = false }
rusttype = "0.9"
serde = { version = "1", features = ["derive"] }
sqlx = { version = "0.8", default-features = false, features = ["runtime-tokio", "sqlite"] }
uuid = { version = "1", features = ["v4"] }
