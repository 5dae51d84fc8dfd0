[package]
name = "calyx_passes"
version = "0.1.0"
edition = "2021"
publish = false

[dependencies]
dap = "0.4.1-alpha1"
thiserror = "*"
