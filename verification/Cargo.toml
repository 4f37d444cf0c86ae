[package]
name = "spore_fates"
version = "0.1.0"
edition = "2021"
publish = false

[dependencies]
sha2 = "*"
cosmwasm-std = "*"
cosmwasm-schema = "*"
cw2 = "*"
cw20 = "*"
cw721 = "*"
cw721-base = "*"
cw721-metadata-onchain = "*"
cw-ownable = "*"
cw-storage-plus = "*"
thiserror = "*"
base64 = "*"
