[package]
name = "ssd1306"
version = "0.9.0"
edition = "2021"
publish = false

[dependencies]
display-interface = "0.5"
display-interface-i2c = "0.5"
display-interface-spi = "0.5"
embedded-hal = "1.0"
embedded-graphics-core = "0.4"
embedded-graphics = "0.8"
linux-embedded-hal = { version = "0.4", default-features = false, features = ["i2c"] }
machine-ip = "*"
