[package]
name = "dbcc"
version = "2.1.0"
edition = "2021"
publish = false

[dependencies]
can-dbc = "=3.0.2"
heck = "=0.3.3"
log = "=0.4.35"
proc-macro2 = "=1.0.107"
quote = "=1.0.47"
socketcan = "=1.7.0"
unicode-ident = "=1.0.27"

[dev-dependencies]
tokio-socketcan-bcm = "=1.0.0"
