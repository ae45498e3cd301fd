[package]
name = "pprof-alloc"
version = "0.1.0"
edition = "2021"
publish = false

[dependencies]
dashmap = "6"
ahash = "0.8"
anyhow = "1"
serde = { version = "1", features = ["derive"] }
prometheus-client = "*"
quick-xml = { version = "*", features = ["serialize"] }
regex = "1"
lazy_static = "1"
libc = "0.2"
errno = "0.3"
thiserror = "*"
flate2 = "1"
prost = "*"
itertools = "*"
smallvec = "1"
backtrace = "0.3"
