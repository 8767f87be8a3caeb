[package]
name = "event_bridge"
version = "0.1.0"
edition = "2021"
publish = false

[dependencies]
base64 = "=0.13.1"
ethabi = "=18.0.0"
hex = "=0.4.3"
serde_json = "=1.0.151"
