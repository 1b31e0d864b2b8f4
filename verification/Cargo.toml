[package]
name = "zenoh-link-bt"
version = "0.1.0"
edition = "2021"
publish = false

[dependencies]
async-trait = "=0.1.92"
bluer = { version = "=0.17.4", features = ["bluetoothd", "l2cap"] }
# Named for its feature: bluer then builds without the system library.
dbus = { version = "=0.9.12", features = ["vendored"] }
futures = "=0.3.34"
portable-atomic-util = { version = "=0.2.8", features = ["alloc"] }
rustls = { version = "=0.23.46", default-features = false, features = ["logging", "ring", "std", "tls12"] }
rustls-pemfile = "=2.2.0"
rustls-pki-types = "=1.15.1"
tokio = { version = "=1.54.1", features = ["io-util", "macros", "net", "rt", "sync", "time"] }
tokio-rustls = { version = "=0.26.6", default-features = false, features = ["logging", "ring", "tls12"] }
tokio-util = "=0.7.20"
tracing = "=0.1.44"
uuid = "=1.29.0"
x509-parser = "=0.18.1"
zenoh-config = "=1.6.2"
zenoh-core = "=1.6.2"
zenoh-link-commons = { version = "=1.6.2", features = ["tls"] }
zenoh-protocol = "=1.6.2"
zenoh-result = "=1.6.2"
zenoh-runtime = "=1.6.2"
