[package]
name = "zino_orm"
version = "0.1.0"
edition = "2021"
publish = false

[dependencies]
convert_case = "*"
apache-avro = "*"
serde = "*"
serde_json = "*"
futures = "*"
sqlx = { version = "0.7", default-features = false }
