[package]
name = "pie_bakeoff"
version = "0.1.0"
edition = "2021"
publish = false

[dependencies]
bit-vec = "0.8"
iron = "0.6"
router = "0.6"
persistent = "0.4"
hyper = "0.10"
url = "1"
mustache = "0.9"
rustc-serialize = "0.3"
r2d2 = "0.8"
r2d2_redis = "*"
num_cpus = "1"
