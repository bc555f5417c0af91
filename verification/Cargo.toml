[package]
name = "oci-free-tier-arm"
version = "1.0.0"
edition = "2021"
publish = false

[dependencies]
base64 = "0.22"
chrono = "0.4"
httpdate = "1"
rsa = "0.9"
serde_json = "1"
sha2 = { version = "0.10", features = ["oid"] }
ureq = "3"
