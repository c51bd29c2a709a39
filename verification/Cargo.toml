[package]
name = "babe"
version = "0.1.0"
edition = "2021"

[dependencies]
parity-scale-codec = { version = "=1.3.7", features = ["derive"] }
sp-core = "=2.0.1"
sp-io = "=2.0.1"
sp-arithmetic = "=2.0.1"
sp-runtime = "=2.0.1"
sp-session = "=2.0.1"
sp-staking = "=2.0.1"
sp-inherents = "=2.0.1"
sp-timestamp = "=2.0.1"
sp-application-crypto = "=2.0.1"
frame-support = "=2.0.1"
frame-system = "=2.0.1"
pallet-timestamp = "=2.0.1"
pallet-session = "=2.0.1"
pallet-balances = "=2.0.1"
pallet-indices = "=2.0.1"
# Used by no code here: these hold dependencies of the crates above to versions they build with.
substrate-bip39 = "=0.4.2"
syn = "=1.0.58"
