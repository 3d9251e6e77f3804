//! The mathematical model of the ledger: its state, the effect of each
//! operation on it, and the laws that every reachable state obeys.

use crate::account::AccountId;
use crate::error::Error;
use crate::event::Transfer;
use vstd::prelude::*;

verus! {

/// A token identifier: positive, assigned in sequence from 1, never reused.
pub type TokenId = u32;

/// The abstract state of a ledger.
pub struct LedgerModel {
    /// Descriptive name, fixed at construction.
    pub name: Seq<char>,
    /// Descriptive symbol, fixed at construction.
    pub symbol: Seq<char>,
    /// The largest number of tokens that may ever be minted.
    pub cap: nat,
    /// The number of tokens minted so far, which is also the last identifier assigned.
    pub count: nat,
    /// Which account owns each existing token.
    pub owners: Map<TokenId, AccountId>,
    /// How many tokens each account holds; accounts that hold none have no entry.
    pub balances: Map<AccountId, nat>,
    /// The notifications emitted and not yet collected, oldest first.
    pub events: Seq<Transfer>,
}

/// One state-changing request to the ledger.
pub enum Op {
    /// `caller` mints the next token.
    Mint { caller: AccountId },
    /// `caller` burns token `id`.
    Burn { caller: AccountId, id: TokenId },
    /// `caller` hands token `id` to `destination`.
    Transfer { caller: AccountId, destination: AccountId, id: TokenId },
}

/// A sparse balance map after one more token is credited to `a`.
pub open spec fn credit(balances: Map<AccountId, nat>, a: AccountId) -> Map<AccountId, nat> {
    if balances.contains_key(a) {
        balances.insert(a, balances[a] + 1)
    } else {
        balances.insert(a, 1)
    }
}

/// A sparse balance map after one token is taken from `a`: the entry is
/// dropped rather than left at zero.
pub open spec fn debit(balances: Map<AccountId, nat>, a: AccountId) -> Map<AccountId, nat> {
    if balances.contains_key(a) && balances[a] > 1 {
        balances.insert(a, (balances[a] - 1) as nat)
    } else {
        balances.remove(a)
    }
}

impl LedgerModel {
    /// The state of a ledger that has just been created.
    pub open spec fn fresh(name: Seq<char>, symbol: Seq<char>, cap: nat) -> LedgerModel {
        LedgerModel {
            name,
            symbol,
            cap,
            count: 0,
            owners: Map::empty(),
            balances: Map::empty(),
            events: Seq::empty(),
        }
    }

    /// The owner of token `id`, if the token exists.
    pub open spec fn owner_of(self, id: TokenId) -> Option<AccountId> {
        if self.owners.contains_key(id) {
            Some(self.owners[id])
        } else {
            None
        }
    }

    /// The recorded balance of `a`; an absent entry counts as zero.
    pub open spec fn balance_of(self, a: AccountId) -> nat {
        if self.balances.contains_key(a) {
            self.balances[a]
        } else {
            0
        }
    }

    /// The identifiers of the tokens that `a` owns.
    pub open spec fn holdings(self, a: AccountId) -> Set<TokenId> {
        self.owners.dom().filter(|id: TokenId| self.owners[id] == a)
    }

    /// The invariants of the ledger.
    pub open spec fn wf(self) -> bool {
        &&& self.count <= self.cap <= u32::MAX
        &&& self.owners.dom().finite()
        &&& forall|id: TokenId| #[trigger]
            self.owners.contains_key(id) ==> 1 <= id <= self.count && !self.owners[id].spec_is_null()
        &&& forall|a: AccountId| #[trigger]
            self.balances.contains_key(a) ==> self.balances[a] > 0
        &&& forall|a: AccountId| #[trigger] self.balance_of(a) == self.holdings(a).len()
    }

    /// The state with token `id` recorded as owned by `to` and one token credited to `to`.
    pub open spec fn with_token(self, to: AccountId, id: TokenId) -> LedgerModel {
        LedgerModel {
            owners: self.owners.insert(id, to),
            balances: credit(self.balances, to),
            ..self
        }
    }

    /// The state with token `id` removed and one token taken from its owner.
    pub open spec fn without_token(self, id: TokenId) -> LedgerModel {
        LedgerModel {
            owners: self.owners.remove(id),
            balances: debit(self.balances, self.owners[id]),
            ..self
        }
    }

    /// What a mint by `caller` returns: the new identifier, or the reason for refusal.
    pub open spec fn mint_outcome(self, caller: AccountId) -> Result<TokenId, Error> {
        if self.count >= self.cap {
            Err(Error::TokenSupplyLimit)
        } else if caller.spec_is_null() {
            Err(Error::NotAllowed)
        } else {
            Ok((self.count + 1) as TokenId)
        }
    }

    /// The state with one more notification emitted.
    pub open spec fn with_event(self, ev: Transfer) -> LedgerModel {
        LedgerModel { events: self.events.push(ev), ..self }
    }

    /// The state after a mint by `caller`: the counter is raised, the new
    /// token is recorded for `caller`, and the mint is notified.
    pub open spec fn after_mint(self, caller: AccountId) -> LedgerModel {
        if self.mint_outcome(caller) is Ok {
            let id = (self.count + 1) as TokenId;
            LedgerModel { count: self.count + 1, ..self }.with_token(caller, id).with_event(
                Transfer::spec_minted(caller, id),
            )
        } else {
            self
        }
    }

    /// What a burn of token `id` by `caller` returns.
    pub open spec fn burn_outcome(self, caller: AccountId, id: TokenId) -> Result<(), Error> {
        if !self.owners.contains_key(id) {
            Err(Error::TokenNotFound)
        } else if self.owners[id] != caller {
            Err(Error::NotOwner)
        } else {
            Ok(())
        }
    }

    /// The state after a burn of token `id` by `caller`: the token is
    /// removed and the burn is notified.
    pub open spec fn after_burn(self, caller: AccountId, id: TokenId) -> LedgerModel {
        if self.burn_outcome(caller, id) is Ok {
            self.without_token(id).with_event(Transfer::spec_burned(caller, id))
        } else {
            self
        }
    }

    /// What a transfer of token `id` from `caller` to `destination` returns.
    pub open spec fn transfer_outcome(
        self,
        caller: AccountId,
        destination: AccountId,
        id: TokenId,
    ) -> Result<(), Error> {
        if !self.owners.contains_key(id) {
            Err(Error::TokenNotFound)
        } else if self.owners[id] != caller {
            Err(Error::NotOwner)
        } else if destination.spec_is_null() {
            Err(Error::NotAllowed)
        } else {
            Ok(())
        }
    }

    /// The state after a transfer of token `id` from `caller` to
    /// `destination`: the token changes hands and the transfer is notified.
    pub open spec fn after_transfer(
        self,
        caller: AccountId,
        destination: AccountId,
        id: TokenId,
    ) -> LedgerModel {
        if self.transfer_outcome(caller, destination, id) is Ok {
            self.without_token(id).with_token(destination, id).with_event(
                Transfer::spec_moved(caller, destination, id),
            )
        } else {
            self
        }
    }

    /// The state after one request.
    pub open spec fn step(self, op: Op) -> LedgerModel {
        match op {
            Op::Mint { caller } => self.after_mint(caller),
            Op::Burn { caller, id } => self.after_burn(caller, id),
            Op::Transfer { caller, destination, id } => self.after_transfer(
                caller,
                destination,
                id,
            ),
        }
    }

    /// The state after a sequence of requests, applied first to last.
    pub open spec fn run(self, ops: Seq<Op>) -> LedgerModel
        decreases ops.len(),
    {
        if ops.len() == 0 {
            self
        } else {
            self.run(ops.drop_last()).step(ops.last())
        }
    }
}

/// A finite set of identifiers that all lie in `1..=n` has at most `n` members.
pub proof fn lemma_ids_bounded(s: Set<TokenId>, n: nat)
    requires
        s.finite(),
        forall|id: TokenId| s.contains(id) ==> 1 <= id <= n,
    ensures
        s.len() <= n,
    decreases n,
{
    if n == 0 {
        assert(s =~= Set::empty());
    } else if n > u32::MAX {
        lemma_ids_bounded(s, (n - 1) as nat);
    } else {
        let top = n as TokenId;
        lemma_ids_bounded(s.remove(top), (n - 1) as nat);
    }
}

/// An account's holdings are finite, and no more than the tokens that exist.
pub proof fn lemma_holdings_finite(s: LedgerModel, a: AccountId)
    requires
        s.owners.dom().finite(),
    ensures
        s.holdings(a).finite(),
        s.holdings(a).len() <= s.owners.dom().len(),
{
    vstd::set_lib::lemma_len_subset(s.holdings(a), s.owners.dom());
}

/// The invariants speak of the two stores and the two counters only: a state
/// with the same stores and cap, and a counter between the old one and the
/// cap, satisfies them too.
pub proof fn lemma_wf_of_same_stores(s: LedgerModel, t: LedgerModel)
    requires
        s.wf(),
        t.owners == s.owners,
        t.balances == s.balances,
        t.cap == s.cap,
        s.count <= t.count <= t.cap,
    ensures
        t.wf(),
{
    assert forall|a: AccountId| #[trigger] t.balance_of(a) == t.holdings(a).len() by {
        assert(s.balance_of(a) == s.holdings(a).len());
        assert(t.holdings(a) == s.holdings(a));
    }
}

/// Recording a token for `to` keeps the invariants, provided the identifier
/// has been assigned, has no owner, and `to` is a real account.
pub proof fn lemma_with_token_wf(s: LedgerModel, to: AccountId, id: TokenId)
    requires
        s.wf(),
        !to.spec_is_null(),
        1 <= id <= s.count,
        !s.owners.contains_key(id),
    ensures
        s.with_token(to, id).wf(),
        s.balance_of(to) < s.count,
{
    let t = s.with_token(to, id);
    assert forall|a: AccountId| #[trigger] t.balance_of(a) == t.holdings(a).len() by {
        assert(s.balance_of(a) == s.holdings(a).len());
        if a == to {
            assert(t.holdings(a) =~= s.holdings(a).insert(id));
        } else {
            assert(t.holdings(a) =~= s.holdings(a));
        }
        lemma_holdings_finite(s, a);
    }
    assert(s.balance_of(to) == s.holdings(to).len());
    lemma_holdings_finite(s, to);
    assert(t.owners.dom() =~= s.owners.dom().insert(id));
    lemma_ids_bounded(t.owners.dom(), s.count);
    assert(s.holdings(to).len() <= s.owners.dom().len());
    assert(t.owners.dom().len() == s.owners.dom().len() + 1);
}

/// Removing an existing token keeps the invariants, and its owner had a
/// positive balance.
pub proof fn lemma_without_token_wf(s: LedgerModel, id: TokenId)
    requires
        s.wf(),
        s.owners.contains_key(id),
    ensures
        s.without_token(id).wf(),
        s.balances.contains_key(s.owners[id]),
        !s.without_token(id).owners.contains_key(id),
{
    let t = s.without_token(id);
    let owner = s.owners[id];
    assert(s.balance_of(owner) == s.holdings(owner).len());
    lemma_holdings_finite(s, owner);
    assert(s.holdings(owner).contains(id));
    assert forall|a: AccountId| #[trigger] t.balance_of(a) == t.holdings(a).len() by {
        assert(s.balance_of(a) == s.holdings(a).len());
        lemma_holdings_finite(s, a);
        if a == owner {
            assert(t.holdings(a) =~= s.holdings(a).remove(id));
        } else {
            assert(t.holdings(a) =~= s.holdings(a));
        }
    }
}

} // verus!
