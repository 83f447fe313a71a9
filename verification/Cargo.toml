[package]
name = "stack_usage"
version = "0.1.0"
edition = "2021"
publish = false

[dependencies]
stacker = "0.1"
