[package]
name = "wormhole"
version = "0.1.0"
edition = "2021"
publish = false

[dependencies]
lz4_flex = "*"
tokio = { version = "*", features = ["full"] }
socket2 = "*"
get_if_addrs = "*"
igd-next = "*"
stun_codec = "*"
bytecodec = "*"
rand = "*"
serde = { version = "*", features = ["derive"] }
serde_ini = "*"
