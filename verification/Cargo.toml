[package]
name = "liquidlauncher"
version = "0.1.0"
edition = "2021"
publish = false

[dependencies]
regex = "=1.13.1"
md5 = "=0.7.0"
uuid = "=1.29.1"
serde = { version = "=1.0.229", features = ["derive"] }
serde_json = "=1.0.154"
chrono = "=0.4.45"
sha1 = "=0.10.7"
base16ct = { version = "=0.2.0", features = ["alloc"] }
anyhow = "=1.0.104"
sysinfo = "=0.29.11"
sanitize-filename = "*"
dirs = "*"
directories = "*"
