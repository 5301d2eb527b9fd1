[package]
name = "hsr"
version = "0.1.0"
edition = "2021"
publish = false

[dependencies]
heck = "=0.4.1"
http = "=1.5.0"
regex = "=1.13.1"
rand = "=0.8.8"
openapiv3 = "=1.0.4"
serde_yaml = "=0.9.34"
serde_json = "=1.0.154"
quote = "=1.0.47"
proc-macro2 = "=1.0.107"
actix-web = { version = "=4.18.1", default-features = false, features = ["macros"] }
url = "=2.5.8"
indexmap = "=2.14.2"
