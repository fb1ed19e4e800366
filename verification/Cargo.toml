[package]
name = "weavegate"
version = "0.1.0"
edition = "2021"
publish = false

[dependencies]
anyhow = "1"
clap = { version = "4", features = ["derive", "env"] }
clap_allgen = "*"
form_urlencoded = "1"
globset = "0.4"
hyper = { version = "0.14", features = ["client", "server", "http1", "tcp", "runtime"] }
hyper-rustls = { version = "0.24", default-features = false, features = ["http1", "tls12", "webpki-tokio"] }
regex-lite = "0.1"
rustls = "0.21"
rustls-pemfile = "1"
serde = { version = "1", features = ["derive"] }
serde_json = "1"
tokio = { version = "1", features = ["rt-multi-thread", "macros", "net", "io-util", "sync", "time"] }
toml = "0.8"
tracing = "0.1"
webpki-roots = "0.25"
