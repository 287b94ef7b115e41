[package]
name = "byteflow"
version = "0.9.0"
edition = "2021"
publish = false

[dependencies]
crossbeam-deque = "=0.8.8"
num_cpus = "=1.17.0"
thiserror = "=2.0.21"
cranelift-codegen = "0.128"
cranelift-jit = "0.128"
cranelift-module = "0.128"
cranelift-native = "0.128"
