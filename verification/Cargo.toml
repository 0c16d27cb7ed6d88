[package]
name = "panda_plugins"
version = "0.1.0"
edition = "2021"
publish = false

[dependencies]
falcon = "*"
ruut = "*"
serde = { version = "1", features = ["derive"] }
serde_json = "1"
crossbeam = "*"
rayon = "*"
num_cpus = "*"
lazy_static = "*"
gdbstub = "0.5"
gdbstub_arch = "0.1"
panda-re = "*"
