[package]
name = "mmap_io"
version = "0.9.11"
edition = "2021"
publish = false

[dependencies]
memmap2 = "0.9"
page_size = "0.6"
parking_lot = "0.12"
libc = "0.2"
notify = "6"
blocking = "1"
tokio = { version = "1", features = ["rt"] }
log = "0.4"
thiserror = "1"
