//! The allowance table: how much a spender may still move on an owner's
//! behalf. An entry defaults to zero, is overwritten (not incremented) by
//! approve, and is decremented by delegated transfers, never below zero.

use vstd::prelude::*;
use crate::address::Address;
use crate::error::Error;
use crate::uint256::Uint256;

verus! {

/// No owner-spender pair appears twice in the table.
pub open spec fn pairs_unique(s: Seq<(Address, Address, Uint256)>) -> bool {
    forall|i: int, j: int|
        0 <= i < j < s.len() ==> !(s[i].0 == s[j].0 && s[i].1 == s[j].1)
}

/// The remaining allowance the table grants `spender` over `owner`'s
/// funds: the value of their entry, or zero if they have none.
pub open spec fn allow_of(s: Seq<(Address, Address, Uint256)>, owner: Address, spender: Address) -> nat
    decreases s.len(),
{
    if s.len() == 0 {
        0
    } else if s[0].0 == owner && s[0].1 == spender {
        s[0].2.as_nat()
    } else {
        allow_of(s.drop_first(), owner, spender)
    }
}

/// Dropping the first entry keeps the remaining pairs unique.
proof fn lemma_pairs_unique_drop_first(s: Seq<(Address, Address, Uint256)>)
    requires
        pairs_unique(s),
        s.len() > 0,
    ensures
        pairs_unique(s.drop_first()),
{
    assert forall|p: int, q: int|
        0 <= p < q < s.drop_first().len() implies !(s.drop_first()[p].0 == s.drop_first()[q].0
        && s.drop_first()[p].1 == s.drop_first()[q].1) by {
        assert(s.drop_first()[p] == s[p + 1]);
        assert(s.drop_first()[q] == s[q + 1]);
    }
}

/// Overwriting the value at `i` (pair kept) keeps the pairs unique.
proof fn lemma_pairs_unique_update(s: Seq<(Address, Address, Uint256)>, i: int, v: Uint256)
    requires
        pairs_unique(s),
        0 <= i < s.len(),
    ensures
        pairs_unique(s.update(i, (s[i].0, s[i].1, v))),
{
    let t = s.update(i, (s[i].0, s[i].1, v));
    assert forall|p: int, q: int|
        0 <= p < q < t.len() implies !(t[p].0 == t[q].0 && t[p].1 == t[q].1) by {
        assert(t[p].0 == s[p].0 && t[p].1 == s[p].1);
        assert(t[q].0 == s[q].0 && t[q].1 == s[q].1);
    }
}

/// Appending an entry under a fresh pair keeps the pairs unique.
proof fn lemma_pairs_unique_push(
    s: Seq<(Address, Address, Uint256)>,
    owner: Address,
    spender: Address,
    v: Uint256,
)
    requires
        pairs_unique(s),
        forall|i: int| 0 <= i < s.len() ==> !(s[i].0 == owner && s[i].1 == spender),
    ensures
        pairs_unique(s.push((owner, spender, v))),
{
    let t = s.push((owner, spender, v));
    assert forall|p: int, q: int|
        0 <= p < q < t.len() implies !(t[p].0 == t[q].0 && t[p].1 == t[q].1) by {
        if q < s.len() {
            assert(t[p] == s[p]);
            assert(t[q] == s[q]);
        } else {
            assert(t[p] == s[p]);
            assert(t[q] == (owner, spender, v));
        }
    }
}

/// Overwriting the value at `i` changes only that pair's allowance.
proof fn lemma_allow_update(
    s: Seq<(Address, Address, Uint256)>,
    i: int,
    v: Uint256,
    owner: Address,
    spender: Address,
)
    requires
        pairs_unique(s),
        0 <= i < s.len(),
    ensures
        allow_of(s.update(i, (s[i].0, s[i].1, v)), owner, spender) == if owner == s[i].0
            && spender == s[i].1 {
            v.as_nat()
        } else {
            allow_of(s, owner, spender)
        },
    decreases s.len(),
{
    let t = s.update(i, (s[i].0, s[i].1, v));
    if i == 0 {
        assert(t.drop_first() =~= s.drop_first());
    } else {
        assert(t[0] == s[0]);
        assert(!(s[0].0 == s[i].0 && s[0].1 == s[i].1));
        if s[0].0 == owner && s[0].1 == spender {
        } else {
            assert(t.drop_first() =~= s.drop_first().update(i - 1, (s[i].0, s[i].1, v)));
            assert(s.drop_first()[i - 1] == s[i]);
            lemma_pairs_unique_drop_first(s);
            lemma_allow_update(s.drop_first(), i - 1, v, owner, spender);
        }
    }
}

/// Appending an entry under a fresh pair changes only that pair's allowance.
proof fn lemma_allow_push(
    s: Seq<(Address, Address, Uint256)>,
    owner: Address,
    spender: Address,
    v: Uint256,
    o2: Address,
    p2: Address,
)
    requires
        forall|i: int| 0 <= i < s.len() ==> !(s[i].0 == owner && s[i].1 == spender),
    ensures
        allow_of(s.push((owner, spender, v)), o2, p2) == if o2 == owner && p2 == spender {
            v.as_nat()
        } else {
            allow_of(s, o2, p2)
        },
    decreases s.len(),
{
    let t = s.push((owner, spender, v));
    if s.len() == 0 {
        assert(t.drop_first() =~= s);
    } else {
        assert(t[0] == s[0]);
        assert(t.drop_first() =~= s.drop_first().push((owner, spender, v)));
        assert(forall|i: int|
            0 <= i < s.drop_first().len() ==> s.drop_first()[i] == s[i + 1]);
        lemma_allow_push(s.drop_first(), owner, spender, v, o2, p2);
    }
}

/// A pair the table does not hold has allowance zero.
proof fn lemma_allow_absent(s: Seq<(Address, Address, Uint256)>, owner: Address, spender: Address)
    requires
        forall|i: int| 0 <= i < s.len() ==> !(s[i].0 == owner && s[i].1 == spender),
    ensures
        allow_of(s, owner, spender) == 0,
    decreases s.len(),
{
    if s.len() > 0 {
        assert(forall|i: int|
            0 <= i < s.drop_first().len() ==> s.drop_first()[i] == s[i + 1]);
        lemma_allow_absent(s.drop_first(), owner, spender);
    }
}

/// The entry at `i` is the allowance of its pair.
proof fn lemma_allow_at(s: Seq<(Address, Address, Uint256)>, i: int)
    requires
        pairs_unique(s),
        0 <= i < s.len(),
    ensures
        allow_of(s, s[i].0, s[i].1) == s[i].2.as_nat(),
    decreases s.len(),
{
    if i > 0 {
        assert(!(s[0].0 == s[i].0 && s[0].1 == s[i].1));
        lemma_pairs_unique_drop_first(s);
        assert(s.drop_first()[i - 1] == s[i]);
        lemma_allow_at(s.drop_first(), i - 1);
    }
}

/// The allowance table.
pub struct AllowanceTable {
    pub entries: Vec<(Address, Address, Uint256)>,
}

impl AllowanceTable {
    /// Internal consistency: each owner-spender pair at most once.
    pub open spec fn wf(self) -> bool {
        pairs_unique(self.entries@)
    }

    /// The remaining allowance of `(owner, spender)`.
    pub open spec fn allowance_nat(self, owner: Address, spender: Address) -> nat {
        allow_of(self.entries@, owner, spender)
    }

    /// A fresh table: every allowance zero.
    pub fn new() -> (r: AllowanceTable)
        ensures
            r.wf(),
            forall|o: Address, p: Address| r.allowance_nat(o, p) == 0,
    {
        AllowanceTable { entries: Vec::new() }
    }

    /// The index of the entry for `(owner, spender)`, if the table has one.
    fn find(&self, owner: Address, spender: Address) -> (r: Option<usize>)
        ensures
            match r {
                Some(i) => i < self.entries@.len() && self.entries@[i as int].0 == owner
                    && self.entries@[i as int].1 == spender,
                None => forall|j: int|
                    0 <= j < self.entries@.len() ==> !(self.entries@[j].0 == owner
                        && self.entries@[j].1 == spender),
            },
    {
        let mut i: usize = 0;
        while i < self.entries.len()
            invariant
                i <= self.entries@.len(),
                forall|j: int|
                    0 <= j < i ==> !(self.entries@[j].0 == owner && self.entries@[j].1 == spender),
            decreases self.entries@.len() - i,
        {
            if self.entries[i].0 == owner && self.entries[i].1 == spender {
                return Some(i);
            }
            i = i + 1;
        }
        None
    }

    /// The remaining allowance of `(owner, spender)`. Read-only; never fails.
    pub fn allowance_of(&self, owner: Address, spender: Address) -> (r: Uint256)
        requires
            self.wf(),
        ensures
            r.as_nat() == self.allowance_nat(owner, spender),
    {
        match self.find(owner, spender) {
            Some(i) => {
                proof {
                    lemma_allow_at(self.entries@, i as int);
                }
                self.entries[i].2
            },
            None => {
                proof {
                    lemma_allow_absent(self.entries@, owner, spender);
                }
                Uint256::zero()
            },
        }
    }

    /// Overwrite the allowance of `(owner, spender)` with `v`, whatever it
    /// held before. Never fails; no other pair is touched.
    pub(crate) fn set_allowance(&mut self, owner: Address, spender: Address, v: Uint256)
        requires
            old(self).wf(),
        ensures
            final(self).wf(),
            final(self).allowance_nat(owner, spender) == v.as_nat(),
            forall|o2: Address, p2: Address|
                !(o2 == owner && p2 == spender) ==> final(self).allowance_nat(o2, p2) == old(
                    self,
                ).allowance_nat(o2, p2),
    {
        let ghost s0 = self.entries@;
        match self.find(owner, spender) {
            Some(i) => {
                self.entries.set(i, (owner, spender, v));
                proof {
                    assert(s0.update(i as int, (s0[i as int].0, s0[i as int].1, v))
                        =~= self.entries@);
                    lemma_pairs_unique_update(s0, i as int, v);
                    lemma_allow_update(s0, i as int, v, owner, spender);
                    assert forall|o2: Address, p2: Address|
                        !(o2 == owner && p2 == spender) implies final(self).allowance_nat(o2, p2)
                        == old(self).allowance_nat(o2, p2) by {
                        lemma_allow_update(s0, i as int, v, o2, p2);
                    }
                }
            },
            None => {
                self.entries.push((owner, spender, v));
                proof {
                    lemma_pairs_unique_push(s0, owner, spender, v);
                    lemma_allow_push(s0, owner, spender, v, owner, spender);
                    assert forall|o2: Address, p2: Address|
                        !(o2 == owner && p2 == spender) implies final(self).allowance_nat(o2, p2)
                        == old(self).allowance_nat(o2, p2) by {
                        lemma_allow_push(s0, owner, spender, v, o2, p2);
                    }
                }
            },
        }
    }

    /// Spend `v` of the allowance of `(owner, spender)`. Fails with
    /// `InsufficientAllowance`, and changes nothing, exactly when less
    /// than `v` remains; otherwise the entry shrinks by exactly `v`.
    pub(crate) fn consume(&mut self, owner: Address, spender: Address, v: Uint256) -> (r: Result<
        (),
        Error,
    >)
        requires
            old(self).wf(),
        ensures
            final(self).wf(),
            match r {
                Ok(()) => old(self).allowance_nat(owner, spender) >= v.as_nat()
                    && final(self).allowance_nat(owner, spender) == old(self).allowance_nat(
                    owner,
                    spender,
                ) - v.as_nat()
                    && (forall|o2: Address, p2: Address|
                        !(o2 == owner && p2 == spender) ==> final(self).allowance_nat(o2, p2)
                            == old(self).allowance_nat(o2, p2)),
                Err(e) => e == Error::InsufficientAllowance
                    && old(self).allowance_nat(owner, spender) < v.as_nat()
                    && *final(self) == *old(self),
            },
    {
        let ghost s0 = self.entries@;
        match self.find(owner, spender) {
            Some(i) => {
                proof {
                    lemma_allow_at(s0, i as int);
                }
                let cur = self.entries[i].2;
                match cur.checked_sub(v) {
                    Some(nv) => {
                        self.entries.set(i, (owner, spender, nv));
                        proof {
                            assert(s0.update(i as int, (s0[i as int].0, s0[i as int].1, nv))
                                =~= self.entries@);
                            lemma_pairs_unique_update(s0, i as int, nv);
                            lemma_allow_update(s0, i as int, nv, owner, spender);
                            assert forall|o2: Address, p2: Address|
                                !(o2 == owner && p2 == spender)
                                implies #[trigger] final(self).allowance_nat(o2, p2)
                                    == old(self).allowance_nat(o2, p2) by {
                                lemma_allow_update(s0, i as int, nv, o2, p2);
                            }
                        }
                        Ok(())
                    },
                    None => Err(Error::InsufficientAllowance),
                }
            },
            None => {
                proof {
                    lemma_allow_absent(s0, owner, spender);
                }
                if v.is_zero() {
                    Ok(())
                } else {
                    Err(Error::InsufficientAllowance)
                }
            },
        }
    }
}

} // verus!
