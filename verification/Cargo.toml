[package]
name = "atomic_transactions"
version = "0.1.0"
edition = "2021"
publish = false

[dependencies]
candid = "=0.10.37"
ic-cdk = "=0.20.3"
ic-cdk-macros = "=0.20.3"
ic-cdk-timers = "=1.0.0"
ic-cdk-management-canister = "=0.2.0"
ansi_term = "=0.12.1"
# No source file names serde directly: candid's Deserialize derive, used by
# the canister shell's wire types, expands to paths into it.
serde = "=1.0.229"
