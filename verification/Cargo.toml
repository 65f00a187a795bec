[package]
name = "kira"
version = "0.1.0"
edition = "2021"
publish = false

[dependencies]
simsearch = "=0.2.5"
serde = { version = "=1.0.229", features = ["derive"] }
serde_json = { version = "=1.0.151", features = ["preserve_order"] }
serde_path_to_error = "=0.1.20"
uuid = { version = "=1.27.0", features = ["v7"] }
reqwest = { version = "=0.13.5", default-features = false, features = ["blocking", "json"] }
tokio = { version = "=1.53.2", features = ["rt-multi-thread"] }
async-trait = "=0.1.92"
ezsockets = "=0.7.2"
image = { version = "=0.25.10", default-features = false, features = ["png", "jpeg"] }
