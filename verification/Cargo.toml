[package]
name = "nro_loader"
version = "0.1.0"
edition = "2021"
publish = false

[dependencies]
sha2 = "=0.10.9"
nnsdk = "=0.5.0"
thiserror = "=1.0.69"
