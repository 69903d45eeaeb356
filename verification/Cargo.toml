[package]
name = "asciimath"
version = "0.1.0"
edition = "2021"
publish = false

[dependencies]
rustc_apfloat = "*"
libm = "*"
bytemuck = "*"
smallvec = "1"
thiserror = "1"
