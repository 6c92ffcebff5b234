[package]
name = "minidom_writer"
version = "1.0.0"
edition = "2021"
publish = false

[dependencies]
minidom = "0.12"
quick-xml = "0.17"
thiserror = "1"
