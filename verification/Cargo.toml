[package]
name = "openvaf"
version = "0.1.0"
edition = "2021"
publish = false

[dependencies]
anyhow = "=1.0.104"
camino = "=1.2.6"
lasso = "=0.7.3"
llvm-sys = { version = "=181.3.1", features = ["no-llvm-linking", "disable-alltargets-init"] }
termcolor = "=1.4.1"
