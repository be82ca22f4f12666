[package]
name = "csvdimreduce"
version = "0.1.0"
edition = "2021"

[dependencies]
number_range = "*"
rand = "*"
anyhow = "*"
csv = "*"
xflags = "*"
trimothy = "*"
