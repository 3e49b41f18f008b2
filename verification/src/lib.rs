//! A ledger of breedable, ownable kitties with a deposit for each account,
//! and a token with a fixed supply.
//!
//! `kitties` holds the engine with its three operations, `state` the model
//! its contracts are stated over, and `laws` what holds of every state and
//! every operation. `registry`, `ownership`, `lineage` and `ledger` are the
//! parts the engine is made of. `erc20` holds the token.

pub mod dna;
pub mod erc20;
pub mod index;
pub mod kitties;
pub mod laws;
pub mod ledger;
pub mod lineage;
pub mod mock;
pub mod ownership;
pub mod randomness;
pub mod registry;
pub mod state;
pub mod table;
pub mod types;
