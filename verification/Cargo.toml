[package]
name = "martin"
version = "0.1.0"
edition = "2021"
publish = false

[dependencies]
actix-cors = "*"
actix-web = "=4.15.0"
deadpool-postgres = "=0.14.2"
num_cpus = "*"
serde = { version = "*", features = ["derive"] }
serde_json = "*"
tilejson = "=0.4.4"
tokio = { version = "*", features = ["macros", "rt-multi-thread"] }
tokio-postgres = { version = "*", features = ["with-serde_json-1"] }
