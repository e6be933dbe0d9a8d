[package]
name = "rsdroid"
version = "0.1.0"
edition = "2021"
publish = false

[dependencies]
prost = "=0.6.1"
anyhow = "=1.0.104"
log = "=0.4.35"
once_cell = "=1.21.4"
jni = "=0.19.0"
android_logger = "=0.10.1"
backtrace = "=0.3.77"
rkv = "=0.17.1"
kv = "0.22"
