[package]
name = "rush"
version = "0.1.0"
edition = "2021"
publish = false

[dependencies]
stackfmt = "=0.1.2"
embassy-executor = "=0.3.3"
embassy-futures = "=0.1.2"
embassy-net = { version = "=0.2.1", features = ["tcp", "proto-ipv4", "medium-ethernet"] }
embassy-time = "=0.1.5"
embedded-svc = { version = "=0.26.4", default-features = false }
esp32s3-hal = "=0.13.0"
esp-backtrace = "=0.9.0"
esp-println = "=0.10.0"
esp-wifi = "=0.1.1"
log = "=0.4.34"
static_cell = "=2.1.1"

[dev-dependencies]
nom = "=7.1.3"
