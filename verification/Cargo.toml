[package]
name = "scripts"
version = "0.1.0"
edition = "2021"
publish = false

[dependencies]
regex = "=1.13.1"
thiserror = "=1.0.69"
open = "=5.4.5"
args = "=2.2.0"
getopts = "=0.2.24"
