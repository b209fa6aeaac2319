[package]
name = "kantyna"
version = "0.1.0"
edition = "2021"
publish = false

[dependencies]
actix-web = { version = "4", default-features = false, features = ["macros"] }
bcrypt = "0.14"
chrono = "0.4"
dotenvy = "0.15"
jsonwebtoken = "8"
lettre = { version = "0.10", default-features = false, features = ["builder", "smtp-transport", "pool", "async-std1", "async-std1-rustls-tls"] }
log = "0.4"
nanoid = "0.4"
sea-orm = { version = "0.11", default-features = false, features = ["macros", "with-json", "with-chrono", "with-rust_decimal"] }
serde = { version = "1", features = ["derive"] }
serde_json = { version = "1", features = ["raw_value"] }
