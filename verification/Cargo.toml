[package]
name = "grib2_reader"
version = "0.1.0"
edition = "2021"
publish = false

[dependencies]
bitstream-io = "*"
byteorder = "1"
itertools = "*"
thiserror = "*"
