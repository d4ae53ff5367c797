[package]
name = "ssd1327-i2c"
version = "0.1.0"
edition = "2021"
publish = false

[dependencies]
embedded-hal = "0.2.7"
embedded-graphics-core = "0.4.0"
