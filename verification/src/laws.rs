//! Laws of the ledger, proved of every state that the operations can reach.

use crate::account::AccountId;
use crate::error::Error;
use crate::model::{
    lemma_wf_of_same_stores, lemma_with_token_wf, lemma_without_token_wf, LedgerModel, Op, TokenId,
};
use vstd::prelude::*;

verus! {

/// The requests that mint one token for each of `callers`, in order.
pub open spec fn mints(callers: Seq<AccountId>) -> Seq<Op> {
    Seq::new(callers.len(), |i: int| Op::Mint { caller: callers[i] })
}

/// A freshly created ledger satisfies the invariants.
pub proof fn lemma_fresh_wf(name: Seq<char>, symbol: Seq<char>, cap: nat)
    requires
        cap <= u32::MAX,
    ensures
        LedgerModel::fresh(name, symbol, cap).wf(),
{
    let s = LedgerModel::fresh(name, symbol, cap);
    assert forall|a: AccountId| #[trigger] s.balance_of(a) == s.holdings(a).len() by {
        assert(s.holdings(a) =~= Set::empty());
    }
}

/// Every request, granted or refused, keeps the invariants and the cap. The
/// mint counter rises by one with a granted mint, whose identifier is the new
/// counter, and stays as it was with every other request.
pub proof fn lemma_step_wf(s: LedgerModel, op: Op)
    requires
        s.wf(),
    ensures
        s.step(op).wf(),
        s.step(op).cap == s.cap,
        match op {
            Op::Mint { caller } => match s.mint_outcome(caller) {
                Ok(id) => s.step(op).count == s.count + 1 && id == s.step(op).count,
                Err(_) => s.step(op).count == s.count,
            },
            _ => s.step(op).count == s.count,
        },
{
    let t = s.step(op);
    match op {
        Op::Mint { caller } => {
            if s.mint_outcome(caller) is Ok {
                let id = (s.count + 1) as TokenId;
                let raised = LedgerModel { count: s.count + 1, ..s };
                lemma_wf_of_same_stores(s, raised);
                lemma_with_token_wf(raised, caller, id);
                lemma_wf_of_same_stores(raised.with_token(caller, id), t);
            }
        },
        Op::Burn { caller, id } => {
            if s.burn_outcome(caller, id) is Ok {
                lemma_without_token_wf(s, id);
                lemma_wf_of_same_stores(s.without_token(id), t);
            }
        },
        Op::Transfer { caller, destination, id } => {
            if s.transfer_outcome(caller, destination, id) is Ok {
                lemma_without_token_wf(s, id);
                lemma_with_token_wf(s.without_token(id), destination, id);
                lemma_wf_of_same_stores(s.without_token(id).with_token(destination, id), t);
            }
        },
    }
}

/// Every finite sequence of requests keeps the invariants.
pub proof fn lemma_run_wf(s: LedgerModel, ops: Seq<Op>)
    requires
        s.wf(),
    ensures
        s.run(ops).wf(),
        s.run(ops).count >= s.count,
        s.run(ops).cap == s.cap,
    decreases ops.len(),
{
    if ops.len() > 0 {
        lemma_run_wf(s, ops.drop_last());
        lemma_step_wf(s.run(ops.drop_last()), ops.last());
    }
}

/// Balances agree with ownership: after any finite sequence of requests to a
/// new ledger, granted or refused, the balance of every account is the number
/// of tokens that it owns.
pub proof fn lemma_balance_is_number_owned(
    name: Seq<char>,
    symbol: Seq<char>,
    cap: nat,
    ops: Seq<Op>,
    a: AccountId,
)
    requires
        cap <= u32::MAX,
    ensures
        ({
            let s = LedgerModel::fresh(name, symbol, cap).run(ops);
            s.balance_of(a) == s.holdings(a).len()
        }),
{
    lemma_fresh_wf(name, symbol, cap);
    lemma_run_wf(LedgerModel::fresh(name, symbol, cap), ops);
    let s = LedgerModel::fresh(name, symbol, cap).run(ops);
    assert(s.balance_of(a) == s.holdings(a).len());
}

/// A refused request changes nothing.
pub proof fn lemma_refusal_changes_nothing(s: LedgerModel, op: Op)
    ensures
        match op {
            Op::Mint { caller } => s.mint_outcome(caller) is Err ==> s.step(op) == s,
            Op::Burn { caller, id } => s.burn_outcome(caller, id) is Err ==> s.step(op) == s,
            Op::Transfer { caller, destination, id } => s.transfer_outcome(caller, destination, id)
                is Err ==> s.step(op) == s,
        },
{
}

/// A transfer of a token by its owner to the null account is refused as not
/// allowed, and the token's owner and every balance stay as they were.
pub proof fn lemma_transfer_to_null_refused(
    s: LedgerModel,
    caller: AccountId,
    destination: AccountId,
    id: TokenId,
)
    requires
        s.owner_of(id) == Some(caller),
        destination.spec_is_null(),
    ensures
        s.transfer_outcome(caller, destination, id) == Err::<(), Error>(Error::NotAllowed),
        s.after_transfer(caller, destination, id) == s,
        s.after_transfer(caller, destination, id).owner_of(id) == s.owner_of(id),
        forall|a: AccountId|
            s.after_transfer(caller, destination, id).balance_of(a) == s.balance_of(a),
{
}

/// An identifier that is assigned but has no owner stays without an owner.
proof fn lemma_spent_id_stays_spent(s: LedgerModel, id: TokenId, ops: Seq<Op>)
    requires
        s.wf(),
        1 <= id <= s.count,
        !s.owners.contains_key(id),
    ensures
        !s.run(ops).owners.contains_key(id),
        s.run(ops).count >= s.count,
    decreases ops.len(),
{
    if ops.len() > 0 {
        let before = s.run(ops.drop_last());
        lemma_spent_id_stays_spent(s, id, ops.drop_last());
        lemma_run_wf(s, ops.drop_last());
        lemma_step_wf(before, ops.last());
    }
}

/// Burning is final: once a burn of token `id` has been granted, the token
/// has no owner after any further sequence of requests, and another burn of
/// it, by anyone, is refused because the token is not found.
pub proof fn lemma_burn_is_final(
    s: LedgerModel,
    owner: AccountId,
    id: TokenId,
    ops: Seq<Op>,
    caller: AccountId,
)
    requires
        s.wf(),
        s.burn_outcome(owner, id) is Ok,
    ensures
        s.after_burn(owner, id).run(ops).owner_of(id) is None,
        s.after_burn(owner, id).run(ops).burn_outcome(caller, id) == Err::<(), Error>(
            Error::TokenNotFound,
        ),
{
    lemma_step_wf(s, Op::Burn { caller: owner, id });
    lemma_spent_id_stays_spent(s.after_burn(owner, id), id, ops);
}

/// Identifiers are never assigned twice: whatever requests follow, a later
/// granted mint returns an identifier greater than every identifier assigned
/// before, one more than the mint counter at that time.
pub proof fn lemma_ids_never_reassigned(
    s: LedgerModel,
    id: TokenId,
    ops: Seq<Op>,
    caller: AccountId,
)
    requires
        s.wf(),
        1 <= id <= s.count,
    ensures
        s.run(ops).mint_outcome(caller) matches Ok(next) ==> next > id && next == s.run(
            ops,
        ).count + 1,
{
    lemma_run_wf(s, ops);
}

/// The state after the first `k` of a run of mints.
proof fn lemma_mints_count(s: LedgerModel, callers: Seq<AccountId>, k: nat)
    requires
        s.wf(),
        k <= callers.len(),
        s.count + k <= s.cap,
        forall|i: int| 0 <= i < callers.len() ==> !(#[trigger] callers[i]).spec_is_null(),
    ensures
        s.run(mints(callers).take(k as int)).count == s.count + k,
        s.run(mints(callers).take(k as int)).cap == s.cap,
        s.run(mints(callers).take(k as int)).wf(),
    decreases k,
{
    let ops = mints(callers).take(k as int);
    if k > 0 {
        lemma_mints_count(s, callers, (k - 1) as nat);
        assert(ops.drop_last() =~= mints(callers).take(k - 1));
        assert(ops.last() == Op::Mint { caller: callers[k - 1] });
        lemma_step_wf(s.run(ops.drop_last()), ops.last());
    }
}

/// The supply cap: on a new ledger with cap `cap`, mints by real accounts are
/// granted one after another with the identifiers 1, 2, ..., `cap`, and the
/// mint after those is refused because the supply limit is reached.
pub proof fn lemma_supply_cap(
    name: Seq<char>,
    symbol: Seq<char>,
    cap: nat,
    callers: Seq<AccountId>,
    k: nat,
)
    requires
        cap <= u32::MAX,
        k <= cap,
        k < callers.len(),
        forall|i: int| 0 <= i < callers.len() ==> !(#[trigger] callers[i]).spec_is_null(),
    ensures
        ({
            let s = LedgerModel::fresh(name, symbol, cap).run(mints(callers).take(k as int));
            let r = s.mint_outcome(callers[k as int]);
            if k < cap {
                r == Ok::<TokenId, Error>((k + 1) as TokenId)
            } else {
                r == Err::<TokenId, Error>(Error::TokenSupplyLimit)
            }
        }),
{
    lemma_fresh_wf(name, symbol, cap);
    lemma_mints_count(LedgerModel::fresh(name, symbol, cap), callers, k);
}

} // verus!
