//! A non-fungible token ownership ledger with a mint cap, whose balances are
//! proved to agree with its ownership records after every operation.

pub mod account;
pub mod balances;
pub mod error;
pub mod event;
pub mod laws;
pub mod ledger;
pub mod model;

pub use crate::account::AccountId;
pub use crate::error::Error;
pub use crate::event::Transfer;
pub use crate::ledger::Erc721;
pub use crate::model::TokenId;
