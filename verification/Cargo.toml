[package]
name = "cert_table"
version = "0.1.0"
edition = "2021"
publish = false

[dependencies]
base64 = "*"
pem = "*"
sha2 = "*"
x509-parser = "*"
oid-registry = "*"
