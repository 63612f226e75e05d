[package]
name = "gd_profiles"
version = "0.1.0"
edition = "2021"
publish = false

[dependencies]
rand = "0.8"
uuid = { version = "1", features = ["v4", "serde"] }
easy_base64 = "*"
rustrict = "*"
sha1_smol = "1"
rocket = { version = "0.5", features = ["json"] }
rocket_db_pools = { version = "0.2", features = ["sqlx_mysql"] }
sqlx = { version = "0.7", default-features = false, features = ["mysql", "migrate"] }
rocket-authorization = "*"
reqwest = { version = "0.12", default-features = false, features = ["rustls-tls"] }
dotenvy = "0.15"
timedmap = "*"
lazy_static = "1"
regex = "1"
serde = { version = "1", features = ["derive"] }
serde_json = "1"
thiserror = "*"
