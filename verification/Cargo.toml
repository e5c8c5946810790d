[package]
name = "mstp_gateway"
version = "0.1.0"
edition = "2021"
publish = false

[dependencies]
urlencoding = "2"
log = "0.4"
anyhow = "1"
enumset = "1"
embedded-svc = "*"
esp-idf-svc = "*"
esp-idf-sys = "*"
embedded-graphics = "*"
mipidsi = "*"
display-interface-spi = "*"
