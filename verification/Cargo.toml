[package]
name = "plant_monitor"
version = "0.1.0"
edition = "2021"
publish = false

[dependencies]
bme280 = "=0.3.0"
embedded-hal = "=0.2.7"
futures-util = "=0.3.34"
i2cdev = "=0.5.1"
linux-embedded-hal = "=0.3.2"
rppal = "=0.14.1"
rumqttc = { version = "=0.24.0", default-features = false, features = ["url"] }
serde = { version = "=1.0.229", features = ["derive"] }
serde_json = "=1.0.154"
tokio = { version = "=1.54.1", features = ["rt", "macros", "sync", "time"] }
toml = "=0.5.11"
