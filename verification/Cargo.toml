[package]
name = "chuni_dump"
version = "0.1.0"
edition = "2021"
publish = false

[dependencies]
aes = "0.8"
anyhow = "1"
byteorder = "1"
chrono = "0.4"
cipher = "0.4"
clap = { version = "4", features = ["derive"] }
cli-table = "0.4"
enable-ansi-support = "0.2"
etherparse = "0.16"
faster-hex = "0.9"
ipnetwork = "0.20"
pcap = "2"
tracing = "0.1"
tracing-subscriber = "0.3"
