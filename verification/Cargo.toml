[package]
name = "katwebx"
version = "0.1.0"
edition = "2021"
publish = false

[dependencies]
regex = "=1.13.1"
base64 = "=0.13.1"
serde = { version = "=1.0.229", features = ["derive"] }
toml = "=0.5.11"
exitcode = "=1.1.2"
mime_guess = "=2.0.5"
mime-sniffer = "=0.1.3"
actix-web = { version = "=4.18.1", default-features = false, features = ["rustls-0_21", "compress-gzip"] }
awc = { version = "=3.11.0", default-features = false, features = ["rustls-0_21"] }
rustls = "=0.21.12"
rustls-pemfile = "=1.0.4"
futures = "=0.3.34"
bytes = "=1.12.1"
brotli = "=3.5.0"
