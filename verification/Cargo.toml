[package]
name = "payload_dumper"
version = "0.1.0"
edition = "2021"
publish = false

[dependencies]
bzip2 = "*"
xz2 = "*"
prost = "*"
jni = "*"
