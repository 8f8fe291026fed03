[package]
name = "state_migration"
version = "0.1.0"
edition = "2021"
publish = false

[dependencies]
ahash = "=0.8.12"
anyhow = "=1.0.104"
cid = "=0.11.3"
fvm_ipld_blockstore = "=0.3.2"
fvm_ipld_encoding = "=0.5.4"
fvm_ipld_hamt = "*"
fvm_shared = "=4.8.4"
multihash-codetable = { version = "=0.2.2", features = ["blake2b"] }
serde = { version = "=1.0.229", features = ["derive"] }
unsigned-varint = "=0.8.0"
