[package]
name = "net_namespace"
version = "0.1.0"
edition = "2021"
publish = false

[dependencies]
atomic_refcell = "0.1"
rand = "0.8"
log = "0.4"
