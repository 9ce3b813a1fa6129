[package]
name = "dropit"
version = "0.1.0"
edition = "2021"
publish = false

[dependencies]
axum = "0.5"
byte-unit = { version = "4.0", default-features = false, features = ["std"] }
clap = { version = "3.2", features = ["derive"] }
hyper = { version = "0.14", features = ["full"] }
log = "0.4"
routerify = "3"
serde = { version = "1", features = ["derive"] }
serde_json = "1"
sqlx = { version = "0.5", default-features = false, features = ["sqlite", "runtime-tokio-rustls", "macros"] }
structopt = "0.3"
tokio = { version = "1", features = ["full"] }
