[package]
name = "rustus"
version = "1.0.0"
edition = "2021"
publish = false

[dependencies]
axum = "0.8"
base64 = "0.22"
chrono = "0.4"
dotenvy = "0.15"
fern = { version = "0.7", features = ["colored"] }
http = "1"
log = "0.4"
md-5 = "0.10"
mime = "0.3"
mime_guess = "2"
prometheus = "0.13"
sentry = "0.34"
sha1 = "0.10"
sha2 = "0.10"
tikv-jemallocator = "0.6"
tokio = { version = "1", features = ["full"] }
tower = "0.5"
tower-http = { version = "0.6", features = ["normalize-path", "set-header", "trace"] }
uuid = { version = "1", features = ["v4"] }
wildmatch = "2"
