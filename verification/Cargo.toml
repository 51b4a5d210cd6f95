[package]
name = "args_filter"
version = "0.1.0"
edition = "2021"
publish = false

[dependencies]
ngx = "*"
regex = "1"
tracing = "0.1"
tracing-subscriber = "0.3"
