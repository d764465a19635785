[package]
name = "phenics"
version = "0.1.0"
edition = "2021"
publish = false

[dependencies]
noodles = { version = "*", features = ["bgzf", "core", "csi", "tabix", "vcf"] }
rand = "*"
urlencoding = "*"
reqwest = { version = "*", default-features = false, features = ["rustls-tls"] }
tokio = { version = "*", features = ["rt-multi-thread"] }
google-cloud-auth = "*"
fs-err = "*"
clap = "*"
rand_distr = "*"
