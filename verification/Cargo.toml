[package]
name = "geoengine"
version = "0.1.0"
edition = "2021"
publish = false

[dependencies]
actix-web = { version = "=4.18.1", default-features = false, features = ["macros"] }
actix-web-httpauth = "=0.8.3"
async-trait = "=0.1.92"
chrono = { version = "=0.4.45", features = ["serde"] }
futures = "=0.3.34"
gdal = "=0.16.0"
lz4_flex = "=0.11.6"
pin-project = "=1.1.13"
reqwest = { version = "=0.11.27", default-features = false, features = ["json"] }
serde = { version = "=1.0.229", features = ["derive"] }
serde_json = "=1.0.154"
snafu = "=0.7.5"
tokio = { version = "=1.54.1", features = ["rt", "rt-multi-thread", "sync", "macros"] }
tokio-postgres = "=0.7.18"
typetag = "=0.2.23"
url = "=2.5.8"
utoipa = { version = "=3.5.0", features = ["uuid"] }
uuid = { version = "=1.29.0", features = ["v4", "serde"] }
