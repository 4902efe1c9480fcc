[package]
name = "ui_test_comments"
version = "0.1.0"
edition = "2021"
publish = false

[dependencies]
regex = "1"
comma = "1"
distance = "0.4"
