[package]
name = "pgml_components"
version = "0.1.0"
edition = "2021"
publish = false

[dependencies]
convert_case = "0.6"
glob = "0.3"
md5 = "0.7"
