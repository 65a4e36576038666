[package]
name = "hydrogen"
version = "0.1.0"
edition = "2021"
publish = false

[dependencies]
libc = "0.2"
errno = "0.2"
rand = "0.3"
num_cpus = "1"
simple-slab = "*"
threadpool = "1"
epoll = "*"
time = "0.1"
log = "0.4"
openssl = "0.10"
simple-stream = "*"
