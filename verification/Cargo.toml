[package]
name = "snake3d"
version = "0.1.0"
edition = "2021"
publish = false

[dependencies]
rand = "=0.8.8"
thin-engine = "0.1.4"
awedio = "=0.8.0"
png = "=0.17.16"
tobj = "=4.0.5"
