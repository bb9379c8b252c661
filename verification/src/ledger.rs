//! The account ledger: a store of account balances and the total-supply
//! counter. Its central facts are proved here as lemmas over the store:
//! how a credit or debit moves the sum of all balances, and that every
//! balance is bounded by that sum.

use vstd::prelude::*;
use crate::address::Address;
use crate::error::Error;
use crate::uint256::{u256_max, Uint256};

verus! {

/// No account appears twice in the store.
pub open spec fn keys_unique(s: Seq<(Address, Uint256)>) -> bool {
    forall|i: int, j: int| 0 <= i < j < s.len() ==> s[i].0 != s[j].0
}

/// The balance the store holds for `a`: the value of its first entry,
/// or zero if it has none.
pub open spec fn bal_of(s: Seq<(Address, Uint256)>, a: Address) -> nat
    decreases s.len(),
{
    if s.len() == 0 {
        0
    } else if s[0].0 == a {
        s[0].1.as_nat()
    } else {
        bal_of(s.drop_first(), a)
    }
}

/// The sum of all balances in the store.
pub open spec fn sum_of(s: Seq<(Address, Uint256)>) -> nat
    decreases s.len(),
{
    if s.len() == 0 {
        0
    } else {
        s[0].1.as_nat() + sum_of(s.drop_first())
    }
}

/// Dropping the first entry keeps the remaining keys unique.
proof fn lemma_unique_drop_first(s: Seq<(Address, Uint256)>)
    requires
        keys_unique(s),
        s.len() > 0,
    ensures
        keys_unique(s.drop_first()),
{
    assert forall|p: int, q: int|
        0 <= p < q < s.drop_first().len() implies s.drop_first()[p].0 != s.drop_first()[q].0 by {
        assert(s.drop_first()[p] == s[p + 1]);
        assert(s.drop_first()[q] == s[q + 1]);
    }
}

/// Overwriting the value at `i` (key kept) keeps the keys unique.
proof fn lemma_unique_update(s: Seq<(Address, Uint256)>, i: int, v: Uint256)
    requires
        keys_unique(s),
        0 <= i < s.len(),
    ensures
        keys_unique(s.update(i, (s[i].0, v))),
{
    let t = s.update(i, (s[i].0, v));
    assert forall|p: int, q: int| 0 <= p < q < t.len() implies t[p].0 != t[q].0 by {
        assert(t[p].0 == s[p].0);
        assert(t[q].0 == s[q].0);
    }
}

/// Appending an entry under a fresh key keeps the keys unique.
proof fn lemma_unique_push(s: Seq<(Address, Uint256)>, a: Address, v: Uint256)
    requires
        keys_unique(s),
        forall|i: int| 0 <= i < s.len() ==> s[i].0 != a,
    ensures
        keys_unique(s.push((a, v))),
{
    let t = s.push((a, v));
    assert forall|p: int, q: int| 0 <= p < q < t.len() implies t[p].0 != t[q].0 by {
        if q < s.len() {
            assert(t[p] == s[p]);
            assert(t[q] == s[q]);
        } else {
            assert(t[p] == s[p]);
            assert(t[q] == (a, v));
        }
    }
}

/// Overwriting the value at `i` moves the sum by exactly the difference.
proof fn lemma_sum_update(s: Seq<(Address, Uint256)>, i: int, v: Uint256)
    requires
        0 <= i < s.len(),
    ensures
        sum_of(s.update(i, (s[i].0, v))) + s[i].1.as_nat() == sum_of(s) + v.as_nat(),
    decreases s.len(),
{
    let t = s.update(i, (s[i].0, v));
    if i == 0 {
        assert(t.drop_first() =~= s.drop_first());
    } else {
        assert(t.drop_first() =~= s.drop_first().update(i - 1, (s[i].0, v)));
        assert(s.drop_first()[i - 1] == s[i]);
        lemma_sum_update(s.drop_first(), i - 1, v);
    }
}

/// Overwriting the value at `i` changes only that key's balance.
proof fn lemma_bal_update(s: Seq<(Address, Uint256)>, i: int, v: Uint256, b: Address)
    requires
        keys_unique(s),
        0 <= i < s.len(),
    ensures
        bal_of(s.update(i, (s[i].0, v)), b) == if b == s[i].0 {
            v.as_nat()
        } else {
            bal_of(s, b)
        },
    decreases s.len(),
{
    let t = s.update(i, (s[i].0, v));
    if i == 0 {
        assert(t.drop_first() =~= s.drop_first());
    } else {
        assert(t[0] == s[0]);
        assert(s[0].0 != s[i].0);
        if s[0].0 == b {
        } else {
            assert(t.drop_first() =~= s.drop_first().update(i - 1, (s[i].0, v)));
            assert(s.drop_first()[i - 1] == s[i]);
            lemma_unique_drop_first(s);
            lemma_bal_update(s.drop_first(), i - 1, v, b);
        }
    }
}

/// Appending an entry moves the sum by exactly its value.
proof fn lemma_sum_push(s: Seq<(Address, Uint256)>, a: Address, v: Uint256)
    ensures
        sum_of(s.push((a, v))) == sum_of(s) + v.as_nat(),
    decreases s.len(),
{
    let t = s.push((a, v));
    if s.len() == 0 {
        assert(t.drop_first() =~= s);
    } else {
        assert(t.drop_first() =~= s.drop_first().push((a, v)));
        lemma_sum_push(s.drop_first(), a, v);
    }
}

/// Appending an entry under a fresh key changes only that key's balance.
proof fn lemma_bal_push(s: Seq<(Address, Uint256)>, a: Address, v: Uint256, b: Address)
    requires
        forall|i: int| 0 <= i < s.len() ==> s[i].0 != a,
    ensures
        bal_of(s.push((a, v)), b) == if b == a {
            v.as_nat()
        } else {
            bal_of(s, b)
        },
    decreases s.len(),
{
    let t = s.push((a, v));
    if s.len() == 0 {
        assert(t.drop_first() =~= s);
    } else {
        assert(t[0] == s[0]);
        assert(s[0].0 != a);
        assert(t.drop_first() =~= s.drop_first().push((a, v)));
        assert(forall|i: int|
            0 <= i < s.drop_first().len() ==> s.drop_first()[i] == s[i + 1]);
        lemma_bal_push(s.drop_first(), a, v, b);
    }
}

/// A key the store does not hold has balance zero.
proof fn lemma_bal_absent(s: Seq<(Address, Uint256)>, a: Address)
    requires
        forall|i: int| 0 <= i < s.len() ==> s[i].0 != a,
    ensures
        bal_of(s, a) == 0,
    decreases s.len(),
{
    if s.len() > 0 {
        assert(s[0].0 != a);
        assert(forall|i: int|
            0 <= i < s.drop_first().len() ==> s.drop_first()[i] == s[i + 1]);
        lemma_bal_absent(s.drop_first(), a);
    }
}

/// The entry at `i` is the balance of its key.
proof fn lemma_bal_at(s: Seq<(Address, Uint256)>, i: int)
    requires
        keys_unique(s),
        0 <= i < s.len(),
    ensures
        bal_of(s, s[i].0) == s[i].1.as_nat(),
    decreases s.len(),
{
    if i > 0 {
        assert(s[0].0 != s[i].0);
        lemma_unique_drop_first(s);
        assert(s.drop_first()[i - 1] == s[i]);
        lemma_bal_at(s.drop_first(), i - 1);
    }
}

/// No balance exceeds the sum of all balances.
pub proof fn lemma_bal_le_sum(s: Seq<(Address, Uint256)>, a: Address)
    ensures
        bal_of(s, a) <= sum_of(s),
    decreases s.len(),
{
    if s.len() > 0 {
        if s[0].0 != a {
            lemma_bal_le_sum(s.drop_first(), a);
        }
    }
}

/// The account ledger: account balances and the total-supply counter.
pub struct Ledger {
    pub balances: Vec<(Address, Uint256)>,
    pub supply: Uint256,
}

impl Ledger {
    /// Internal consistency of the store: each account at most once.
    pub open spec fn wf(self) -> bool {
        keys_unique(self.balances@)
    }

    /// The balance of account `a` (zero for unknown accounts).
    pub open spec fn balance_nat(self, a: Address) -> nat {
        bal_of(self.balances@, a)
    }

    /// The sum of all account balances.
    pub open spec fn sum_nat(self) -> nat {
        sum_of(self.balances@)
    }

    /// The total-supply counter's value.
    pub open spec fn supply_nat(self) -> nat {
        self.supply.as_nat()
    }

    /// Conservation: the counter equals the sum of all balances.
    pub open spec fn conserved(self) -> bool {
        self.sum_nat() == self.supply_nat()
    }

    /// A fresh ledger: zero supply, every balance zero.
    pub fn new() -> (r: Ledger)
        ensures
            r.wf(),
            r.conserved(),
            r.supply_nat() == 0,
            forall|a: Address| r.balance_nat(a) == 0,
    {
        Ledger { balances: Vec::new(), supply: Uint256::zero() }
    }

    /// The index of the entry for `a`, if the store has one.
    fn find(&self, a: Address) -> (r: Option<usize>)
        ensures
            match r {
                Some(i) => i < self.balances@.len() && self.balances@[i as int].0 == a,
                None => forall|j: int|
                    0 <= j < self.balances@.len() ==> self.balances@[j].0 != a,
            },
    {
        let mut i: usize = 0;
        while i < self.balances.len()
            invariant
                i <= self.balances@.len(),
                forall|j: int| 0 <= j < i ==> self.balances@[j].0 != a,
            decreases self.balances@.len() - i,
        {
            if self.balances[i].0 == a {
                return Some(i);
            }
            i = i + 1;
        }
        None
    }

    /// The balance of account `a`. Read-only; never fails.
    pub fn balance_of(&self, a: Address) -> (r: Uint256)
        requires
            self.wf(),
        ensures
            r.as_nat() == self.balance_nat(a),
    {
        match self.find(a) {
            Some(i) => {
                proof {
                    lemma_bal_at(self.balances@, i as int);
                }
                self.balances[i].1
            },
            None => {
                proof {
                    lemma_bal_absent(self.balances@, a);
                }
                Uint256::zero()
            },
        }
    }

    /// The total-supply counter.
    pub fn total_supply(&self) -> (r: Uint256)
        ensures
            r.as_nat() == self.supply_nat(),
    {
        self.supply
    }

    /// Add `v` to the balance of `a`. Fails with `Overflow`, and changes
    /// nothing, exactly when the new balance would not be representable.
    /// The supply counter is untouched: the sum grows by `v` on success.
    pub(crate) fn credit(&mut self, a: Address, v: Uint256) -> (r: Result<(), Error>)
        requires
            old(self).wf(),
        ensures
            final(self).wf(),
            final(self).supply == old(self).supply,
            match r {
                Ok(()) => old(self).balance_nat(a) + v.as_nat() <= u256_max()
                    && final(self).balance_nat(a) == old(self).balance_nat(a) + v.as_nat()
                    && (forall|b: Address|
                        b != a ==> final(self).balance_nat(b) == old(self).balance_nat(b))
                    && final(self).sum_nat() == old(self).sum_nat() + v.as_nat(),
                Err(e) => e == Error::Overflow
                    && old(self).balance_nat(a) + v.as_nat() > u256_max()
                    && *final(self) == *old(self),
            },
    {
        let ghost s0 = self.balances@;
        match self.find(a) {
            Some(i) => {
                proof {
                    lemma_bal_at(s0, i as int);
                }
                let cur = self.balances[i].1;
                match cur.checked_add(v) {
                    Some(nv) => {
                        self.balances.set(i, (a, nv));
                        proof {
                            assert(s0.update(i as int, (s0[i as int].0, nv)) =~= self.balances@);
                            lemma_unique_update(s0, i as int, nv);
                            lemma_sum_update(s0, i as int, nv);
                            assert forall|b: Address|
                                b != a implies final(self).balance_nat(b) == old(
                                self,
                            ).balance_nat(b) by {
                                lemma_bal_update(s0, i as int, nv, b);
                            }
                            lemma_bal_update(s0, i as int, nv, a);
                        }
                        Ok(())
                    },
                    None => Err(Error::Overflow),
                }
            },
            None => {
                proof {
                    lemma_bal_absent(s0, a);
                }
                self.balances.push((a, v));
                proof {
                    lemma_unique_push(s0, a, v);
                    lemma_sum_push(s0, a, v);
                    assert forall|b: Address|
                        b != a implies final(self).balance_nat(b) == old(self).balance_nat(b) by {
                        lemma_bal_push(s0, a, v, b);
                    }
                    lemma_bal_push(s0, a, v, a);
                }
                Ok(())
            },
        }
    }

    /// Take `v` from the balance of `a`. Fails with `InsufficientBalance`,
    /// and changes nothing, exactly when `a` holds less than `v`. The
    /// supply counter is untouched: the sum shrinks by `v` on success.
    pub(crate) fn debit(&mut self, a: Address, v: Uint256) -> (r: Result<(), Error>)
        requires
            old(self).wf(),
        ensures
            final(self).wf(),
            final(self).supply == old(self).supply,
            match r {
                Ok(()) => old(self).balance_nat(a) >= v.as_nat()
                    && final(self).balance_nat(a) == old(self).balance_nat(a) - v.as_nat()
                    && (forall|b: Address|
                        b != a ==> final(self).balance_nat(b) == old(self).balance_nat(b))
                    && final(self).sum_nat() == old(self).sum_nat() - v.as_nat()
                    && old(self).sum_nat() >= v.as_nat(),
                Err(e) => e == Error::InsufficientBalance
                    && old(self).balance_nat(a) < v.as_nat()
                    && *final(self) == *old(self),
            },
    {
        let ghost s0 = self.balances@;
        match self.find(a) {
            Some(i) => {
                proof {
                    lemma_bal_at(s0, i as int);
                    lemma_bal_le_sum(s0, a);
                }
                let cur = self.balances[i].1;
                match cur.checked_sub(v) {
                    Some(nv) => {
                        self.balances.set(i, (a, nv));
                        proof {
                            assert(s0.update(i as int, (s0[i as int].0, nv)) =~= self.balances@);
                            lemma_unique_update(s0, i as int, nv);
                            lemma_sum_update(s0, i as int, nv);
                            assert forall|b: Address|
                                b != a implies final(self).balance_nat(b) == old(
                                self,
                            ).balance_nat(b) by {
                                lemma_bal_update(s0, i as int, nv, b);
                            }
                            lemma_bal_update(s0, i as int, nv, a);
                        }
                        Ok(())
                    },
                    None => Err(Error::InsufficientBalance),
                }
            },
            None => {
                proof {
                    lemma_bal_absent(s0, a);
                }
                if v.is_zero() {
                    Ok(())
                } else {
                    Err(Error::InsufficientBalance)
                }
            },
        }
    }

    /// Raise the supply counter by `v`. Fails with `Overflow`, and changes
    /// nothing, exactly when the counter would leave 256 bits. Balances
    /// are untouched.
    pub(crate) fn add_supply(&mut self, v: Uint256) -> (r: Result<(), Error>)
        ensures
            final(self).balances == old(self).balances,
            match r {
                Ok(()) => old(self).supply_nat() + v.as_nat() <= u256_max()
                    && final(self).supply_nat() == old(self).supply_nat() + v.as_nat(),
                Err(e) => e == Error::Overflow
                    && old(self).supply_nat() + v.as_nat() > u256_max()
                    && *final(self) == *old(self),
            },
    {
        match self.supply.checked_add(v) {
            Some(ns) => {
                self.supply = ns;
                Ok(())
            },
            None => Err(Error::Overflow),
        }
    }

    /// Lower the supply counter by `v`; the caller must have shown that
    /// the counter holds at least `v`. Balances are untouched.
    pub(crate) fn sub_supply(&mut self, v: Uint256)
        requires
            old(self).supply_nat() >= v.as_nat(),
        ensures
            final(self).balances == old(self).balances,
            final(self).supply_nat() == old(self).supply_nat() - v.as_nat(),
    {
        match self.supply.checked_sub(v) {
            Some(ns) => {
                self.supply = ns;
            },
            None => {
                // unreachable: the caller has shown the counter holds `v`
                proof {
                    assert(false);
                }
            },
        }
    }
}

} // verus!
