[package]
name = "momo"
version = "0.1.0"
edition = "2021"
publish = false

[dependencies]
blake3 = "=1.7.0"
rand = "=0.9.5"
owo-colors = "=4.2.3"
oxc_allocator = "=0.143.0"
oxc_parser = "=0.143.0"
oxc_span = "=0.143.0"
clap = { version = "=4.5.61", features = ["derive"] }
jwalk = "=0.8.1"
rayon = "=1.10.0"
fd-lock = "=4.0.4"
reflink-copy = "=0.1.32"
tempfile = "=3.23.0"
parking_lot = "=0.12.5"
