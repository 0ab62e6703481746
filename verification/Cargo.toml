[package]
name = "gdt2dicom"
version = "0.1.0"
edition = "2021"
publish = false

[dependencies]
xml-rs = "*"
chrono = "*"
notify = "*"
tempfile = "*"
clap = { version = "*", features = ["derive"] }
