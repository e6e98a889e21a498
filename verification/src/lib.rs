pub mod accounts_cache;
pub mod chain_meta_service;
pub mod collateral_check;
pub mod config;
pub mod cypher_account_service;
mod key_set;
pub mod keypair;
pub mod liquidator;
pub mod mints;
pub mod number;
pub mod pubkey;
pub mod simulation;
pub mod snapshot;
pub mod states;
pub mod submission;
pub mod sweep;
pub mod text;
pub mod utils;
