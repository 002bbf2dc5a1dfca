[package]
name = "mqtt_session"
version = "0.1.0"
edition = "2021"
publish = false

[dependencies]
ntex = { version = "*", default-features = false }
futures = "*"
log = "*"
