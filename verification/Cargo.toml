[package]
name = "wattseal"
version = "0.1.0"
edition = "2021"
publish = false

[dependencies]
battery = "0.7"
display-info = "0.5"
rumqttc = "0.24"
serde = { version = "1", features = ["derive"] }
serde_json = "1"
sysinfo = "*"
thiserror = "2"
