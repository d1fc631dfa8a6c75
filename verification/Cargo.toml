[package]
name = "theseus"
version = "0.1.0"
edition = "2021"
publish = false

[dependencies]
xmas-elf = "=0.9.1"
rand_chacha = "=0.3.1"
rdrand = "=0.8.3"
smoltcp = "=0.8.2"
vte = "=0.11.1"
x86_64 = { version = "=0.14.13", default-features = false, features = ["instructions"] }
rustc-demangle = "=0.1.28"
hashbrown = "=0.14.5"
spin = "=0.9.9"
lazy_static = "=1.5.1"
getopts = "=0.2.24"
log = "=0.4.35"
zerocopy = { version = "=0.8.63", default-features = false }
