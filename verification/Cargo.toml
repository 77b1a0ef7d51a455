[package]
name = "osm_admin"
version = "0.1.0"
edition = "2021"
publish = false

[dependencies]
transient-btree-index = "=0.5.1"
escape_string = "=0.1.2"
osm-io = "=0.3.0"
osmpbf = "=0.3.8"
chrono = "=0.4.45"
log = "=0.4.34"
simple_logger = "=4.3.3"
clap = "=4.6.7"
anyhow = "=1.0.104"
num_cpus = "=1.17.0"
num-format = "=0.4.4"
rpassword = "=7.5.4"
json = "=0.12.4"
postgres = "=0.19.14"
benchmark-rs = "=0.1.3"
thiserror = "=1.0.69"
