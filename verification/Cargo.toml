[package]
name = "tnl"
version = "0.2.0"
edition = "2021"
publish = false

[dependencies]
anyhow = "1"
async-trait = "0.1"
axum = "0.8"
base64 = "0.22"
bytes = "1"
clap = { version = "4", features = ["derive"] }
dirs = "6"
futures-util = "0.3"
hyper = { version = "1", features = ["http1", "server"] }
hyper-util = { version = "0.1", features = ["server-auto", "service", "tokio"] }
libc = "0.2"
mio = { version = "1", features = ["net", "os-poll"] }
muxado = "*"
rand = "0.8"
rustls = { version = "0.23", default-features = false, features = ["ring", "std", "tls12"] }
rustls-acme = { version = "0.15", default-features = false, features = ["ring", "webpki-roots"] }
s2n-quic = "1"
serde = { version = "1", features = ["derive"] }
serde_json = "1"
sha2 = "0.10"
socket2 = { version = "0.6", features = ["all"] }
tokio = { version = "1", features = ["full"] }
tokio-rustls = { version = "0.26", default-features = false, features = ["ring", "tls12"] }
tokio-stream = "0.1"
ureq = "3"
url = "2"
webpki-roots = "1"
