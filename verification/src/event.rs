//! The notification that accompanies every change of ownership.

use crate::account::AccountId;
use crate::model::TokenId;
use vstd::prelude::*;

verus! {

/// Token `id` passed from `from` to `to`. A mint names the null account as
/// the sender, a burn names it as the receiver.
#[derive(Clone, Copy, Debug, PartialEq, Eq)]
pub struct Transfer {
    pub from: Option<AccountId>,
    pub to: Option<AccountId>,
    pub id: TokenId,
}

impl Transfer {
    /// The notification of a mint of token `id` for `to`.
    pub open spec fn spec_minted(to: AccountId, id: TokenId) -> Transfer {
        Transfer { from: Some(AccountId::spec_null()), to: Some(to), id }
    }

    /// The notification of a burn of token `id` by `from`.
    pub open spec fn spec_burned(from: AccountId, id: TokenId) -> Transfer {
        Transfer { from: Some(from), to: Some(AccountId::spec_null()), id }
    }

    /// The notification of a transfer of token `id` from `from` to `to`.
    pub open spec fn spec_moved(from: AccountId, to: AccountId, id: TokenId) -> Transfer {
        Transfer { from: Some(from), to: Some(to), id }
    }

    /// The notification of a mint of token `id` for `to`.
    #[verifier::when_used_as_spec(spec_minted)]
    pub fn minted(to: AccountId, id: TokenId) -> (ev: Transfer)
        ensures
            ev == Self::spec_minted(to, id),
    {
        Transfer { from: Some(AccountId::null()), to: Some(to), id }
    }

    /// The notification of a burn of token `id` by `from`.
    #[verifier::when_used_as_spec(spec_burned)]
    pub fn burned(from: AccountId, id: TokenId) -> (ev: Transfer)
        ensures
            ev == Self::spec_burned(from, id),
    {
        Transfer { from: Some(from), to: Some(AccountId::null()), id }
    }

    /// The notification of a transfer of token `id` from `from` to `to`.
    #[verifier::when_used_as_spec(spec_moved)]
    pub fn moved(from: AccountId, to: AccountId, id: TokenId) -> (ev: Transfer)
        ensures
            ev == Self::spec_moved(from, to, id),
    {
        Transfer { from: Some(from), to: Some(to), id }
    }
}

} // verus!
