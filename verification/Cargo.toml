[package]
name = "cosmic-time"
version = "0.4.0"
edition = "2021"
publish = false

[dependencies]
iced_core = "=0.12.3"
iced_futures = "0.12"
iced_runtime = "0.12"
