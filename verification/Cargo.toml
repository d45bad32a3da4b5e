[package]
name = "embprop"
version = "0.1.0"
edition = "2021"
publish = false

[dependencies]
rustc_apfloat = "=0.2.3"
ieee-apsqrt = "=0.1.1"
rand = "=0.8.8"
rand_xorshift = "=0.3.0"
rayon = "=1.12.0"
