[package]
name = "flog_compiler"
version = "0.1.0"
edition = "2021"
publish = false

[dependencies]
error-stack = "0.4"
num-bigint = "0.4"
