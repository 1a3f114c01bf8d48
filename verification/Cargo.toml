[package]
name = "gerritbot"
version = "0.8.0"
edition = "2021"
publish = false

[dependencies]
regex = "1"
lru_time_cache = "0.11"
shellexpand = "2"
serde = { version = "1", features = ["derive"] }
serde_json = "1"
serde_yaml = "0.8"
log = "0.4"
stderrlog = "0.5"
structopt = "0.3"
chrono = "0.4"
rlua = "0.17"
rlua_serde = "0.4"
ssh2 = "0.9"
reqwest = { version = "0.11", default-features = false, features = ["blocking", "json", "rustls-tls"] }
hyper = { version = "0.14", features = ["server", "http1", "tcp"] }
tokio = { version = "1", features = ["rt-multi-thread", "macros", "sync"] }
rusoto_core = { version = "0.48", default-features = false, features = ["rustls"] }
rusoto_sqs = { version = "0.48", default-features = false, features = ["rustls"] }
backoff = "0.4"
