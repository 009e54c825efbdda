[package]
name = "nethuns_rs"
version = "0.1.0"
edition = "2021"
publish = false

[dependencies]
arrayvec = "=0.7.8"
anyhow = "=1.0.104"
clap = { version = "=4.6.7", features = ["derive"] }
ctrlc = "=3.5.2"
crossbeam-queue = "=0.3.14"
etherparse = "=0.21.0"
pcap-parser = "=0.17.0"
ringbuf = "0.4"
thiserror = "=2.0.21"
libc = "=0.2.191"
