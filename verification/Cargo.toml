[package]
name = "pencil"
version = "0.1.0"
edition = "2021"
publish = false

[dependencies]
url = "2"
form_urlencoded = "1"
percent-encoding = "2"
http = "1"
serde_json = "1"
