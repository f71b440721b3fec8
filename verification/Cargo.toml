[package]
name = "bluez-async"
version = "0.1.0"
edition = "2021"
publish = false

[dependencies]
bluez-generated = "*"
dbus = "0.9"
dbus-tokio = "0.7"
futures = "0.3"
log = "0.4"
serde = { version = "1.0", features = ["derive"] }
serde-xml-rs = "0.4"
thiserror = "1.0"
tokio = { version = "1", features = ["rt", "macros"] }
uuid = "0.8"
