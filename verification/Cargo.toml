[package]
name = "interp_step"
version = "0.1.0"
edition = "2021"
publish = false

[dev-dependencies]
fortanix-sgx-abi = "*"
