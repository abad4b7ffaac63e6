[package]
name = "tigo_exporter"
version = "0.1.0"
edition = "2021"
publish = false

[dependencies]
csv = "1"
gumdrop = "0.8"
prometheus-client = "0.22"
tiny_http = "0.12"
