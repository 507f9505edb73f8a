[package]
name = "rtcm_json"
version = "0.1.0"
edition = "2021"
publish = false

[dependencies]
base64 = "=0.23.1"
chrono = "=0.4.45"
circular = "=0.3.0"
clap = "=4.6.7"
rtcm-rs = { version = "=0.11.0", features = ["serde"] }
serde_json = "=1.0.151"
