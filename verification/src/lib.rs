//! A registry of user profiles and a ledger of tips exchanged between them,
//! kept in the ordered key-value store of a CosmWasm host.

pub mod contract;
pub mod error;
pub mod helpers;
pub mod laws;
pub mod ledger;
pub mod msg;
pub mod paging;
pub mod state;
pub mod store;
pub mod text;
pub mod username;

pub use crate::error::ContractError;
