[package]
name = "api_model"
version = "0.1.0"
edition = "2021"
publish = false

[dependencies]
anyhow = "=1.0.104"
clap = { version = "=4.6.7", features = ["derive"] }
clap-markdown = "=0.1.5"
indexmap = "=1.9.3"
lazy_static = "=1.5.1"
merge-yaml-hash = "=0.4.0"
mock_json = "=0.1.8"
oapi = "=0.1.2"
openapiv3 = "=1.0.4"
rand = "=0.8.8"
serde = { version = "=1.0.229", features = ["derive"] }
serde_json = "=1.0.154"
serde_yaml = "=0.9.34"
simplelog = { version = "=0.12.2", features = ["paris"] }
sppparse = "=0.1.4"
temp-file = "=0.2.0"
tera = "=1.20.1"
tera-text-filters = "=1.0.0"
