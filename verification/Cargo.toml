[package]
name = "mapiproxy"
version = "0.1.0"
edition = "2021"
publish = false

[dependencies]
anyhow = "1"
argsplitter = "*"
ctrlc = "3"
etherparse = "0.14"
is-terminal = "0.4"
mio = { version = "0.8", features = ["os-poll", "net"] }
pcap-file = "2"
slab = "0.4"
smallvec = "1"
thiserror = "1"
