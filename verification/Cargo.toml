[package]
name = "wc"
version = "0.1.0"
edition = "2021"
publish = false

[dependencies]
html5ever = "0.27"
markup5ever = "0.12"
markup5ever_rcdom = "0.3"
tendril = "0.4"
json = "0.12"
url = "2"
regex = "1"
httparse = "1"
