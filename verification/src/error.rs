//! Why a ledger operation was refused.

use vstd::prelude::*;

verus! {

/// The reasons for which the ledger refuses an operation. A refused operation
/// leaves the ledger exactly as it was.
#[derive(Clone, Copy, Debug, PartialEq, Eq, Structural)]
pub enum Error {
    /// The caller does not hold the token it tried to burn or transfer.
    NotOwner,
    /// The token identifier already has an owner.
    TokenExists,
    /// The token identifier was never minted, or the token has been burned.
    TokenNotFound,
    /// Every token that the mint cap allows has been minted.
    TokenSupplyLimit,
    /// An account that holds a token has no balance entry. A well-formed
    /// ledger never reports this.
    CannotFetchValue,
    /// The null account was used as the caller or as the destination.
    NotAllowed,
}

} // verus!
