[package]
name = "b2upload"
version = "0.1.0"
edition = "2021"
publish = false

[dependencies]
aws-config = "=1.11.0"
aws-credential-types = { version = "=1.3.1", features = ["hardcoded-credentials"] }
aws-sdk-s3 = { version = "=1.152.0", features = ["behavior-version-latest"] }
base64 = "=0.22.1"
chrono = "=0.4.45"
hmac = "=0.12.1"
keyring = { version = "=3.6.3", features = ["apple-native", "windows-native", "linux-native"] }
mime_guess = "=2.0.5"
percent-encoding = "=2.3.2"
serde = { version = "=1.0.229", features = ["derive"] }
serde_json = "=1.0.154"
sha2 = "=0.10.9"
uuid = { version = "=1.29.0", features = ["v4"] }
zeroize = { version = "=1.9.1", features = ["derive"] }
