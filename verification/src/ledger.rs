//! The ledger itself: the two stores, the two counters, and the operations on them.

use crate::account::AccountId;
use crate::balances::BalanceTable;
use crate::error::Error;
use crate::event::Transfer;
use crate::model::{
    lemma_wf_of_same_stores, lemma_with_token_wf, lemma_without_token_wf, LedgerModel, TokenId,
};
use std::collections::HashMap;
use vstd::prelude::*;
use vstd::std_specs::hash::*;

verus! {

broadcast use vstd::std_specs::hash::group_hash_axioms;

/// A token ledger: who owns which token, how many tokens each account holds,
/// and how many tokens have been and may be minted.
pub struct Erc721 {
    name: String,
    symbol: String,
    /// The mint cap, fixed at construction.
    total_supply: u32,
    /// The number of mints so far.
    count: u32,
    /// From token to owner.
    token_owners: HashMap<TokenId, AccountId>,
    /// From owner to number of tokens held.
    balances: BalanceTable,
    /// Notifications emitted and not yet collected.
    pending: Vec<Transfer>,
}

impl Erc721 {
    /// The abstract state that this ledger holds.
    pub closed spec fn view(&self) -> LedgerModel {
        LedgerModel {
            name: self.name@,
            symbol: self.symbol@,
            cap: self.total_supply as nat,
            count: self.count as nat,
            owners: self.token_owners@,
            balances: self.balances@,
            events: self.pending@,
        }
    }

    /// The balance store is in order.
    pub closed spec fn stores_wf(&self) -> bool {
        self.balances.wf()
    }

    /// The ledger is well formed: its stores are in order and its state
    /// satisfies the invariants of the model.
    pub open spec fn wf(&self) -> bool {
        self.stores_wf() && self@.wf()
    }

    /// A ledger without tokens that lets `init_supply` tokens be minted.
    pub fn new(name: String, symbol: String, init_supply: u32) -> (ledger: Erc721)
        ensures
            ledger.wf(),
            ledger@ == LedgerModel::fresh(name@, symbol@, init_supply as nat),
    {
        let ledger = Erc721 {
            name,
            symbol,
            total_supply: init_supply,
            count: 0,
            token_owners: HashMap::new(),
            balances: BalanceTable::new(),
            pending: Vec::new(),
        };
        proof {
            assert forall|a: AccountId| #[trigger]
                ledger@.balance_of(a) == ledger@.holdings(a).len() by {
                assert(ledger@.holdings(a) =~= Set::empty());
            }
        }
        ledger
    }

    /// The name given at construction.
    pub fn name(&self) -> (r: String)
        ensures
            r@ == self@.name,
    {
        self.name.clone()
    }

    /// The symbol given at construction.
    pub fn symbol(&self) -> (r: String)
        ensures
            r@ == self@.symbol,
    {
        self.symbol.clone()
    }

    /// The mint cap: the number of tokens that may ever be minted, not the
    /// number that exist now.
    pub fn total_supply(&self) -> (r: u32)
        ensures
            r == self@.cap,
    {
        self.total_supply
    }

    /// The number of tokens minted so far, which is the last identifier assigned.
    pub fn mint_count(&self) -> (r: u32)
        ensures
            r == self@.count,
    {
        self.count
    }

    /// The owner of token `id`, or `None` if it was never minted or has been burned.
    pub fn owner_of(&self, id: TokenId) -> (r: Option<AccountId>)
        ensures
            r == self@.owner_of(id),
    {
        match self.token_owners.get(&id) {
            Some(owner) => Some(*owner),
            None => None,
        }
    }

    /// The number of tokens that `owner` holds.
    pub fn balance_of(&self, owner: AccountId) -> (r: u32)
        requires
            self.wf(),
        ensures
            r == self@.balance_of(owner),
            r == self@.holdings(owner).len(),
    {
        self.balance_of_or_zero(&owner)
    }

    /// The notifications emitted since they were last collected, oldest first.
    pub fn events(&self) -> (r: &Vec<Transfer>)
        ensures
            r@ == self@.events,
    {
        &self.pending
    }

    /// Hands over the notifications emitted since they were last collected,
    /// oldest first, and forgets them. Nothing else changes.
    pub fn take_events(&mut self) -> (r: Vec<Transfer>)
        ensures
            r@ == old(self)@.events,
            final(self)@ == (LedgerModel { events: Seq::empty(), ..old(self)@ }),
            old(self).wf() ==> final(self).wf(),
    {
        let mut out: Vec<Transfer> = Vec::new();
        std::mem::swap(&mut self.pending, &mut out);
        proof {
            if old(self).wf() {
                lemma_wf_of_same_stores(old(self)@, self@);
            }
        }
        out
    }

    /// Hands token `id` from `caller` to `destination`. Every condition is
    /// tested before either store is touched, so a refusal changes nothing.
    pub fn transfer(&mut self, caller: AccountId, destination: AccountId, id: TokenId) -> (r:
        Result<(), Error>)
        requires
            old(self).wf(),
        ensures
            final(self).wf(),
            r == old(self)@.transfer_outcome(caller, destination, id),
            final(self)@ == old(self)@.after_transfer(caller, destination, id),
    {
        self.transfer_token_from(&caller, &destination, id)
    }

    /// Mints the next token for `caller` and returns its identifier.
    pub fn mint(&mut self, caller: AccountId) -> (r: Result<TokenId, Error>)
        requires
            old(self).wf(),
        ensures
            final(self).wf(),
            r == old(self)@.mint_outcome(caller),
            final(self)@ == old(self)@.after_mint(caller),
    {
        if self.count >= self.total_supply {
            return Err(Error::TokenSupplyLimit);
        }
        if caller.is_null() {
            return Err(Error::NotAllowed);
        }
        let ghost before = self@;
        self.count = self.count + 1;
        let id = self.count;
        proof {
            lemma_wf_of_same_stores(before, self@);
        }
        match self.add_token_to(&caller, id) {
            Ok(()) => {
                proof {
                    lemma_wf_of_same_stores(
                        self@,
                        self@.with_event(Transfer::spec_minted(caller, id)),
                    );
                }
                self.pending.push(Transfer::minted(caller, id));
                Ok(id)
            },
            Err(e) => Err(e),
        }
    }

    /// Destroys token `id`, which `caller` must own. Its identifier is never
    /// assigned again.
    pub fn burn(&mut self, caller: AccountId, id: TokenId) -> (r: Result<(), Error>)
        requires
            old(self).wf(),
        ensures
            final(self).wf(),
            r == old(self)@.burn_outcome(caller, id),
            final(self)@ == old(self)@.after_burn(caller, id),
    {
        match self.remove_token_from(&caller, id) {
            Ok(()) => {
                proof {
                    lemma_wf_of_same_stores(
                        self@,
                        self@.with_event(Transfer::spec_burned(caller, id)),
                    );
                }
                self.pending.push(Transfer::burned(caller, id));
                Ok(())
            },
            Err(e) => Err(e),
        }
    }

    /// Moves token `id` from `from` to `to`, or refuses and changes nothing.
    fn transfer_token_from(&mut self, from: &AccountId, to: &AccountId, id: TokenId) -> (r: Result<
        (),
        Error,
    >)
        requires
            old(self).wf(),
        ensures
            final(self).wf(),
            r == old(self)@.transfer_outcome(*from, *to, id),
            final(self)@ == old(self)@.after_transfer(*from, *to, id),
    {
        match self.token_owners.get(&id) {
            None => {
                return Err(Error::TokenNotFound);
            },
            Some(owner) => {
                if !owner.same(from) {
                    return Err(Error::NotOwner);
                }
            },
        }
        if to.is_null() {
            return Err(Error::NotAllowed);
        }
        proof {
            lemma_without_token_wf(self@, id);
        }
        match self.remove_token_from(from, id) {
            Ok(()) => {},
            Err(e) => {
                return Err(e);
            },
        }
        match self.add_token_to(to, id) {
            Ok(()) => {
                proof {
                    lemma_wf_of_same_stores(
                        self@,
                        self@.with_event(Transfer::spec_moved(*from, *to, id)),
                    );
                }
                self.pending.push(Transfer::moved(*from, *to, id));
                Ok(())
            },
            Err(e) => Err(e),
        }
    }

    /// Takes token `id` away from `from` and lowers the balance of `from` by
    /// one, or refuses and changes nothing.
    fn remove_token_from(&mut self, from: &AccountId, id: TokenId) -> (r: Result<(), Error>)
        requires
            old(self).wf(),
        ensures
            final(self).wf(),
            r == old(self)@.burn_outcome(*from, id),
            final(self)@ == (if r is Ok {
                old(self)@.without_token(id)
            } else {
                old(self)@
            }),
    {
        match self.token_owners.get(&id) {
            None => {
                return Err(Error::TokenNotFound);
            },
            Some(owner) => {
                if !owner.same(from) {
                    return Err(Error::NotOwner);
                }
            },
        }
        proof {
            lemma_without_token_wf(self@, id);
        }
        let count = match self.balances.get(from) {
            Some(c) => c,
            None => {
                return Err(Error::CannotFetchValue);
            },
        };
        if count > 1 {
            self.balances.insert(*from, count - 1);
        } else {
            self.balances.remove(from);
        }
        self.token_owners.remove(&id);
        Ok(())
    }

    /// Records `to` as the owner of token `id` and raises the balance of `to`
    /// by one, or refuses and changes nothing.
    fn add_token_to(&mut self, to: &AccountId, id: TokenId) -> (r: Result<(), Error>)
        requires
            old(self).wf(),
            1 <= id <= old(self)@.count,
        ensures
            final(self).wf(),
            r == (if old(self)@.owners.contains_key(id) {
                Err::<(), Error>(Error::TokenExists)
            } else if to.spec_is_null() {
                Err(Error::NotAllowed)
            } else {
                Ok(())
            }),
            final(self)@ == (if r is Ok {
                old(self)@.with_token(*to, id)
            } else {
                old(self)@
            }),
    {
        if self.token_exists(id) {
            return Err(Error::TokenExists);
        }
        if to.is_null() {
            return Err(Error::NotAllowed);
        }
        proof {
            lemma_with_token_wf(self@, *to, id);
        }
        let count = match self.balances.get(to) {
            Some(c) => c + 1,
            None => 1,
        };
        self.balances.insert(*to, count);
        self.token_owners.insert(id, *to);
        Ok(())
    }

    /// Whether token `id` has an owner.
    fn token_exists(&self, id: TokenId) -> (r: bool)
        ensures
            r == self@.owners.contains_key(id),
    {
        self.token_owners.contains_key(&id)
    }

    /// The balance stored for `of`, or zero if none is stored.
    fn balance_of_or_zero(&self, of: &AccountId) -> (r: u32)
        requires
            self.wf(),
        ensures
            r == self@.balance_of(*of),
            r == self@.holdings(*of).len(),
    {
        match self.balances.get(of) {
            Some(c) => c,
            None => 0,
        }
    }
}

} // verus!
