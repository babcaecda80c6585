[package]
name = "pg_auth_proxy"
version = "0.1.0"
edition = "2021"
publish = false

[dependencies]
aws-credential-types = "*"
aws-sigv4 = "*"
url = "*"
aws-config = "*"
tokio = { version = "*", features = ["net", "io-util", "rt-multi-thread", "macros"] }
native-tls = "*"
postgres-native-tls = "*"
tokio-postgres = "*"

[dev-dependencies]
postgres-protocol = "*"
bytes = "*"
