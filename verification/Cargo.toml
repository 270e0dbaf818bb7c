[package]
name = "ddnet_client"
version = "0.1.0"
edition = "2021"
publish = false

[dependencies]
png = "0.17"
anyhow = "1"
hashlink = "0.9"
arrayvec = "0.7"
rayon = "1"
