[package]
name = "chain_sync"
version = "0.1.0"
edition = "2021"
publish = false

[dependencies]
bitcoin = "=0.31.2"
# not used directly: pins the graph, since miniscript 11 (pulled in by
# bdk_chain) needs bitcoin-internals 0.2.0 and fails against 0.2.1
bitcoin-internals = "=0.2.0"
bdk_chain = "=0.14.0"
bitcoincore-rpc = "=0.18.0"
electrum-client = "=0.19.0"
bitcoind = "=0.36.1"
anyhow = "1"
