[package]
name = "todo_app"
version = "0.1.0"
edition = "2021"
publish = false

[dependencies]
actix-web = "=4.15.0"
azure_data_cosmos = { version = "=0.38.0", features = ["key_auth"] }
base64 = "=0.22.1"
chrono = "=0.4.45"
futures = "=0.3.34"
serde = { version = "=1.0.229", features = ["derive"] }
serde_json = "=1.0.151"
thiserror = "=1.0.69"
uuid = { version = "=1.27.0", features = ["v4"] }
