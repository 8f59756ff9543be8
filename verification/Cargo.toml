[package]
name = "cz_sequencer"
version = "0.1.0"
edition = "2021"
publish = false

[dependencies]
memmap2 = "*"
crc32fast = "*"
sha2 = "*"
io-uring = "*"
