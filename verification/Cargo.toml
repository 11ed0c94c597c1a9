[package]
name = "gzip_decoder"
version = "0.1.0"
edition = "2021"
publish = false

[dependencies]
crc = "3"
byteorder = "1"
memchr = "2"
thiserror = "2"
static_str_ops = "*"
bitflags = "2"

[dev-dependencies]
flate2 = "1"
