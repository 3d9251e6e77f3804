//! The balance store: a sparse table from accounts to token counts.

use crate::account::AccountId;
use vstd::prelude::*;

verus! {

/// One row of the balance store.
#[derive(Clone, Copy, Debug)]
struct Holding {
    account: AccountId,
    count: u32,
}

/// No account appears in two rows.
spec fn distinct_accounts(rows: Seq<Holding>) -> bool {
    forall|i: int, j: int| 0 <= i < j < rows.len() ==> rows[i].account != rows[j].account
}

/// Some row belongs to `a`.
spec fn has_row(rows: Seq<Holding>, a: AccountId) -> bool {
    exists|i: int| 0 <= i < rows.len() && #[trigger] rows[i].account == a
}

/// The index of a row that belongs to `a`.
spec fn row_of(rows: Seq<Holding>, a: AccountId) -> int {
    choose|i: int| 0 <= i < rows.len() && #[trigger] rows[i].account == a
}

/// The partial function that a sequence of rows stands for.
spec fn rows_map(rows: Seq<Holding>) -> Map<AccountId, nat> {
    Map::new(|a: AccountId| has_row(rows, a), |a: AccountId| rows[row_of(rows, a)].count as nat)
}

/// With distinct accounts, the row of an account is the only one that names it.
proof fn lemma_row_unique(rows: Seq<Holding>, i: int)
    requires
        distinct_accounts(rows),
        0 <= i < rows.len(),
    ensures
        has_row(rows, rows[i].account),
        row_of(rows, rows[i].account) == i,
        rows_map(rows).contains_key(rows[i].account),
        rows_map(rows)[rows[i].account] == rows[i].count,
{
    let a = rows[i].account;
    assert(rows[i].account == a);
    let j = row_of(rows, a);
    if j < i {
        assert(rows[j].account != rows[i].account);
    } else if i < j {
        assert(rows[i].account != rows[j].account);
    }
}

/// A map from accounts to counts, kept as a list of rows with distinct accounts.
pub struct BalanceTable {
    rows: Vec<Holding>,
}

impl BalanceTable {
    /// The rows never name an account twice.
    pub closed spec fn wf(&self) -> bool {
        distinct_accounts(self.rows@)
    }

    /// The partial function from accounts to counts that the table holds.
    pub closed spec fn view(&self) -> Map<AccountId, nat> {
        rows_map(self.rows@)
    }

    /// An empty table.
    pub fn new() -> (t: BalanceTable)
        ensures
            t.wf(),
            t@ == Map::<AccountId, nat>::empty(),
    {
        let t = BalanceTable { rows: Vec::new() };
        assert(t@ =~= Map::<AccountId, nat>::empty());
        t
    }

    /// The index of the row of `a`, if there is one.
    fn find(&self, a: &AccountId) -> (r: Option<usize>)
        ensures
            match r {
                Some(i) => i < self.rows@.len() && self.rows@[i as int].account == *a,
                None => !has_row(self.rows@, *a),
            },
    {
        let mut i: usize = 0;
        while i < self.rows.len()
            invariant
                i <= self.rows@.len(),
                forall|j: int| 0 <= j < i ==> self.rows@[j].account != *a,
            decreases self.rows@.len() - i,
        {
            if self.rows[i].account.same(a) {
                return Some(i);
            }
            i += 1;
        }
        None
    }

    /// The count stored for `a`, if the table has an entry for it.
    pub fn get(&self, a: &AccountId) -> (r: Option<u32>)
        requires
            self.wf(),
        ensures
            match r {
                Some(c) => self@.contains_key(*a) && self@[*a] == c,
                None => !self@.contains_key(*a),
            },
    {
        match self.find(a) {
            Some(i) => {
                proof {
                    lemma_row_unique(self.rows@, i as int);
                }
                Some(self.rows[i].count)
            },
            None => None,
        }
    }

    /// Stores `count` for `a`, replacing the entry if there is one.
    pub fn insert(&mut self, a: AccountId, count: u32)
        requires
            old(self).wf(),
        ensures
            final(self).wf(),
            final(self)@ == old(self)@.insert(a, count as nat),
    {
        let row = Holding { account: a, count };
        let ghost before = self.rows@;
        let ghost at: int;
        match self.find(&a) {
            Some(i) => {
                self.rows[i] = row;
                proof {
                    at = i as int;
                }
            },
            None => {
                self.rows.push(row);
                proof {
                    at = before.len() as int;
                }
            },
        }
        proof {
            let after = self.rows@;
            assert(after[at] == row);
            assert(distinct_accounts(after));
            assert forall|k: AccountId| has_row(after, k) <==> (k == a || has_row(before, k)) by {
                if has_row(after, k) && k != a {
                    let j = row_of(after, k);
                    assert(before[j].account == k);
                }
                if has_row(before, k) {
                    let j = row_of(before, k);
                    assert(after[j].account == k);
                }
                if k == a {
                    assert(after[at].account == k);
                }
            }
            assert forall|k: AccountId| has_row(after, k) implies rows_map(after)[k] == (if k
                == a {
                count as nat
            } else {
                rows_map(before)[k]
            }) by {
                let j = row_of(after, k);
                lemma_row_unique(after, j);
                if k != a {
                    assert(before[j] == after[j]);
                    lemma_row_unique(before, j);
                }
            }
            assert(rows_map(after) =~= rows_map(before).insert(a, count as nat));
        }
    }

    /// Drops the entry of `a`, if there is one.
    pub fn remove(&mut self, a: &AccountId)
        requires
            old(self).wf(),
        ensures
            final(self).wf(),
            final(self)@ == old(self)@.remove(*a),
    {
        let ghost before = self.rows@;
        match self.find(a) {
            Some(i) => {
                self.rows.remove(i);
                proof {
                    let after = self.rows@;
                    assert(after == before.remove(i as int));
                    assert forall|p: int, q: int| 0 <= p < q < after.len() implies after[p].account
                        != after[q].account by {
                        let pp = if p < i { p } else { p + 1 };
                        let qq = if q < i { q } else { q + 1 };
                        assert(after[p] == before[pp]);
                        assert(after[q] == before[qq]);
                    }
                    assert forall|k: AccountId| has_row(after, k) <==> (k != *a && has_row(
                        before,
                        k,
                    )) by {
                        if has_row(after, k) {
                            let j = row_of(after, k);
                            let jj = if j < i { j } else { j + 1 };
                            assert(before[jj].account == k);
                            if k == *a {
                                lemma_row_unique(before, jj);
                                lemma_row_unique(before, i as int);
                            }
                        }
                        if has_row(before, k) && k != *a {
                            let j = row_of(before, k);
                            let jj = if j < i { j } else { j - 1 };
                            assert(after[jj].account == k);
                        }
                    }
                    assert forall|k: AccountId| has_row(after, k) implies rows_map(after)[k]
                        == rows_map(before)[k] by {
                        let j = row_of(after, k);
                        let jj = if j < i { j } else { j + 1 };
                        lemma_row_unique(after, j);
                        assert(after[j] == before[jj]);
                        lemma_row_unique(before, jj);
                    }
                    assert(rows_map(after) =~= rows_map(before).remove(*a));
                }
            },
            None => {
                assert(rows_map(before) =~= rows_map(before).remove(*a));
            },
        }
    }
}

} // verus!
