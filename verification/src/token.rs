//! The transfer engine: the public face of the token. It orchestrates the
//! account ledger, the allowance table and the authorization guard, and
//! records an event for every success. Every operation is all-or-nothing:
//! a failure leaves the whole state exactly as it was.

use vstd::prelude::*;
use crate::address::Address;
use crate::allowance::AllowanceTable;
use crate::auth::{require_privileged, require_self_or_privileged};
use crate::error::Error;
use crate::event::Event;
use crate::ledger::{lemma_bal_le_sum, sum_of, Ledger};
use crate::uint256::{lemma_as_nat_bound, u256_max, Uint256};

verus! {

/// What a completed delegated transfer asks the host to deliver to the
/// recipient contract, once every local mutation has finished.
#[derive(Clone, Copy, Debug, PartialEq, Eq, Structural)]
pub struct NotifyRequest {
    pub from: Address,
    pub to: Address,
    pub value: Uint256,
}

/// The token: balances plus supply, allowances, the immutable privileged
/// principal, an append-only event log, and descriptive metadata.
pub struct Token {
    pub ledger: Ledger,
    pub allowances: AllowanceTable,
    pub owner: Address,
    pub log: Vec<Event>,
    pub name: String,
    pub symbol: String,
    pub decimals: u8,
}

impl Token {
    /// The state invariant: both stores are consistent, and the supply
    /// counter equals the sum of all balances (conservation).
    pub open spec fn wf(self) -> bool {
        &&& self.ledger.wf()
        &&& self.allowances.wf()
        &&& self.ledger.conserved()
    }

    /// The balance of account `a` (zero for unknown accounts).
    pub open spec fn balance_nat(self, a: Address) -> nat {
        self.ledger.balance_nat(a)
    }

    /// The total supply.
    pub open spec fn supply_nat(self) -> nat {
        self.ledger.supply_nat()
    }

    /// The remaining allowance of `(owner, spender)`.
    pub open spec fn allowance_nat(self, owner: Address, spender: Address) -> nat {
        self.allowances.allowance_nat(owner, spender)
    }

    /// The owner, metadata and allowance table are those of `pre`.
    pub open spec fn same_admin(pre: Token, post: Token) -> bool {
        &&& post.owner == pre.owner
        &&& post.name == pre.name
        &&& post.symbol == pre.symbol
        &&& post.decimals == pre.decimals
    }

    /// Every allowance is that of `pre`.
    pub open spec fn same_allowances(pre: Token, post: Token) -> bool {
        forall|o: Address, p: Address| post.allowance_nat(o, p) == pre.allowance_nat(o, p)
    }

    /// Every balance is that of `pre`.
    pub open spec fn same_balances(pre: Token, post: Token) -> bool {
        forall|b: Address| post.balance_nat(b) == pre.balance_nat(b)
    }

    /// Exactly `v` moved from `from` to `to`; nobody else was touched.
    pub open spec fn balances_moved(
        pre: Token,
        post: Token,
        from: Address,
        to: Address,
        v: nat,
    ) -> bool {
        &&& (from == to ==> post.balance_nat(from) == pre.balance_nat(from))
        &&& (from != to ==> post.balance_nat(from) == pre.balance_nat(from) - v
            && post.balance_nat(to) == pre.balance_nat(to) + v)
        &&& (forall|b: Address|
            b != from && b != to ==> post.balance_nat(b) == pre.balance_nat(b))
    }

    /// A fresh token. The deploying caller becomes the privileged
    /// principal; supply and every balance and allowance start at zero.
    pub fn new(name: String, symbol: String, decimals: u8, deployer: Address) -> (r: Token)
        ensures
            r.wf(),
            r.owner == deployer,
            r.name == name,
            r.symbol == symbol,
            r.decimals == decimals,
            r.supply_nat() == 0,
            forall|a: Address| r.balance_nat(a) == 0,
            forall|o: Address, p: Address| r.allowance_nat(o, p) == 0,
            r.log@ == Seq::<Event>::empty(),
    {
        let r = Token {
            ledger: Ledger::new(),
            allowances: AllowanceTable::new(),
            owner: deployer,
            log: Vec::new(),
            name,
            symbol,
            decimals,
        };
        proof {
            assert(r.log@ =~= Seq::<Event>::empty());
        }
        r
    }

    /// The balance of `account`. Read-only; never fails.
    pub fn balance_of(&self, account: Address) -> (r: Uint256)
        requires
            self.wf(),
        ensures
            r.as_nat() == self.balance_nat(account),
    {
        self.ledger.balance_of(account)
    }

    /// The remaining allowance of `(owner, spender)`. Read-only; never fails.
    pub fn allowance(&self, owner: Address, spender: Address) -> (r: Uint256)
        requires
            self.wf(),
        ensures
            r.as_nat() == self.allowance_nat(owner, spender),
    {
        self.allowances.allowance_of(owner, spender)
    }

    /// The total supply. Read-only; never fails.
    pub fn total_supply(&self) -> (r: Uint256)
        ensures
            r.as_nat() == self.supply_nat(),
    {
        self.ledger.total_supply()
    }

    /// The privileged principal, fixed at construction.
    pub fn owner(&self) -> (r: Address)
        ensures
            r == self.owner,
    {
        self.owner
    }

    /// The token's descriptive name.
    pub fn name(&self) -> (r: &String)
        ensures
            r == self.name,
    {
        &self.name
    }

    /// The token's ticker symbol.
    pub fn symbol(&self) -> (r: &String)
        ensures
            r == self.symbol,
    {
        &self.symbol
    }

    /// How many decimal places a display of an amount should assume.
    pub fn decimals(&self) -> (r: u8)
        ensures
            r == self.decimals,
    {
        self.decimals
    }

    /// The event log, oldest first.
    pub fn events(&self) -> (r: &Vec<Event>)
        ensures
            r@ == self.log@,
    {
        &self.log
    }

    /// Move `value` from the caller's account to `to`.
    ///
    /// Exactly when `to` is the zero identity the result is
    /// `InvalidRecipient`; exactly when the caller holds less than
    /// `value` it is `InsufficientBalance`; otherwise the transfer
    /// succeeds, moves exactly `value`, touches neither the supply nor
    /// any allowance, and records a `Transfer` event. A failed call
    /// leaves the whole state unchanged.
    pub fn transfer(&mut self, caller: Address, to: Address, value: Uint256) -> (r: Result<
        bool,
        Error,
    >)
        requires
            old(self).wf(),
        ensures
            final(self).wf(),
            Token::same_admin(*old(self), *final(self)),
            Token::same_allowances(*old(self), *final(self)),
            final(self).supply_nat() == old(self).supply_nat(),
            r matches Ok(_) <==> (!to.spec_is_zero() && old(self).balance_nat(caller)
                >= value.as_nat()),
            match r {
                Ok(ok) => ok == true && Token::balances_moved(
                    *old(self),
                    *final(self),
                    caller,
                    to,
                    value.as_nat(),
                ) && final(self).log@ == old(self).log@.push(
                    Event::Transfer { from: caller, to, value },
                ),
                Err(e) => *final(self) == *old(self) && (e == Error::InvalidRecipient
                    <==> to.spec_is_zero()) && (e == Error::InvalidRecipient || e
                    == Error::InsufficientBalance),
            },
    {
        if to.is_zero() {
            return Err(Error::InvalidRecipient);
        }
        let bal = self.ledger.balance_of(caller);
        if bal.lt(value) {
            return Err(Error::InsufficientBalance);
        }
        let ghost pre = *self;
        match self.ledger.debit(caller, value) {
            Ok(()) => {},
            Err(e) => {
                // unreachable: the caller's balance was checked above
                proof {
                    assert(false);
                }
                return Err(e);
            },
        }
        proof {
            lemma_bal_le_sum(self.ledger.balances@, to);
            lemma_as_nat_bound(pre.ledger.supply);
        }
        match self.ledger.credit(to, value) {
            Ok(()) => {},
            Err(e) => {
                // unreachable: by conservation the recipient's balance plus
                // `value` is bounded by the supply, which is representable
                proof {
                    assert(false);
                }
                return Err(e);
            },
        }
        self.log.push(Event::Transfer { from: caller, to, value });
        Ok(true)
    }

    /// Grant `spender` the right to move up to `value` of the caller's
    /// funds: the stored allowance is overwritten with `value`, whatever
    /// it held before. Never fails; balances and supply are untouched;
    /// an `Approval` event is recorded.
    pub fn approve(&mut self, caller: Address, spender: Address, value: Uint256) -> (r: bool)
        requires
            old(self).wf(),
        ensures
            final(self).wf(),
            r == true,
            Token::same_admin(*old(self), *final(self)),
            Token::same_balances(*old(self), *final(self)),
            final(self).supply_nat() == old(self).supply_nat(),
            final(self).allowance_nat(caller, spender) == value.as_nat(),
            forall|o: Address, p: Address|
                !(o == caller && p == spender) ==> final(self).allowance_nat(o, p) == old(
                    self,
                ).allowance_nat(o, p),
            final(self).log@ == old(self).log@.push(
                Event::Approval { owner: caller, spender, value },
            ),
    {
        self.allowances.set_allowance(caller, spender, value);
        self.log.push(Event::Approval { owner: caller, spender, value });
        true
    }

    /// Move `value` from `from` to `to` on the strength of an allowance
    /// granted by `from` to the caller.
    ///
    /// Checked in order: a zero `to` gives `InvalidRecipient`; an
    /// allowance below `value` gives `InsufficientAllowance`; a balance
    /// below `value` gives `InsufficientBalance`. Otherwise the transfer
    /// succeeds, the allowance shrinks by exactly `value` (it is consumed
    /// with the pre-transfer amount, before any interaction with other
    /// contracts can happen), and a `Transfer` event is recorded. A
    /// failed call leaves the whole state unchanged.
    pub fn transfer_from(
        &mut self,
        caller: Address,
        from: Address,
        to: Address,
        value: Uint256,
    ) -> (r: Result<bool, Error>)
        requires
            old(self).wf(),
        ensures
            final(self).wf(),
            Token::same_admin(*old(self), *final(self)),
            final(self).supply_nat() == old(self).supply_nat(),
            r matches Ok(_) <==> (!to.spec_is_zero() && old(self).allowance_nat(from, caller)
                >= value.as_nat() && old(self).balance_nat(from) >= value.as_nat()),
            match r {
                Ok(ok) => ok == true && Token::balances_moved(
                    *old(self),
                    *final(self),
                    from,
                    to,
                    value.as_nat(),
                ) && final(self).allowance_nat(from, caller) == old(self).allowance_nat(
                    from,
                    caller,
                ) - value.as_nat() && (forall|o: Address, p: Address|
                    !(o == from && p == caller) ==> final(self).allowance_nat(o, p) == old(
                        self,
                    ).allowance_nat(o, p)) && final(self).log@ == old(self).log@.push(
                    Event::Transfer { from, to, value },
                ),
                Err(e) => *final(self) == *old(self) && (e == Error::InvalidRecipient
                    <==> to.spec_is_zero()) && (e == Error::InsufficientAllowance
                    <==> !to.spec_is_zero() && old(self).allowance_nat(from, caller)
                    < value.as_nat()) && (e == Error::InvalidRecipient
                    || e == Error::InsufficientAllowance || e == Error::InsufficientBalance),
            },
    {
        if to.is_zero() {
            return Err(Error::InvalidRecipient);
        }
        let granted = self.allowances.allowance_of(from, caller);
        if granted.lt(value) {
            return Err(Error::InsufficientAllowance);
        }
        let bal = self.ledger.balance_of(from);
        if bal.lt(value) {
            return Err(Error::InsufficientBalance);
        }
        let ghost pre = *self;
        match self.allowances.consume(from, caller, value) {
            Ok(()) => {},
            Err(e) => {
                // unreachable: the allowance was checked above
                proof {
                    assert(false);
                }
                return Err(e);
            },
        }
        match self.ledger.debit(from, value) {
            Ok(()) => {},
            Err(e) => {
                // unreachable: the holder's balance was checked above
                proof {
                    assert(false);
                }
                return Err(e);
            },
        }
        proof {
            lemma_bal_le_sum(self.ledger.balances@, to);
            lemma_as_nat_bound(pre.ledger.supply);
        }
        match self.ledger.credit(to, value) {
            Ok(()) => {},
            Err(e) => {
                // unreachable: by conservation the recipient's balance plus
                // `value` is bounded by the supply, which is representable
                proof {
                    assert(false);
                }
                return Err(e);
            },
        }
        self.log.push(Event::Transfer { from, to, value });
        Ok(true)
    }

    /// Create `value` new tokens in `to`'s account. Only the privileged
    /// principal may mint: any other caller gets `Unauthorized`. A supply
    /// counter that would leave 256 bits gives `Overflow`. On success the
    /// supply and `to`'s balance both grow by exactly `value`, and a
    /// `Transfer` event from the zero identity is recorded. A failed call
    /// leaves the whole state unchanged.
    pub fn mint(&mut self, caller: Address, to: Address, value: Uint256) -> (r: Result<(), Error>)
        requires
            old(self).wf(),
        ensures
            final(self).wf(),
            Token::same_admin(*old(self), *final(self)),
            Token::same_allowances(*old(self), *final(self)),
            r matches Ok(_) <==> (caller == old(self).owner && old(self).supply_nat()
                + value.as_nat() <= u256_max()),
            match r {
                Ok(()) => final(self).supply_nat() == old(self).supply_nat() + value.as_nat()
                    && final(self).balance_nat(to) == old(self).balance_nat(to) + value.as_nat()
                    && (forall|b: Address|
                        b != to ==> final(self).balance_nat(b) == old(self).balance_nat(b))
                    && final(self).log@ == old(self).log@.push(
                    Event::Transfer { from: Address::spec_zero(), to, value },
                ),
                Err(e) => *final(self) == *old(self) && (e == Error::Unauthorized <==> caller
                    != old(self).owner) && (e == Error::Unauthorized || e == Error::Overflow),
            },
    {
        match require_privileged(caller, self.owner) {
            Ok(()) => {},
            Err(e) => {
                return Err(e);
            },
        }
        let ghost pre = *self;
        match self.ledger.add_supply(value) {
            Ok(()) => {},
            Err(e) => {
                return Err(e);
            },
        }
        proof {
            lemma_bal_le_sum(self.ledger.balances@, to);
        }
        match self.ledger.credit(to, value) {
            Ok(()) => {},
            Err(e) => {
                // unreachable: the recipient's balance plus `value` is
                // bounded by the already-raised supply counter
                proof {
                    assert(false);
                }
                return Err(e);
            },
        }
        self.log.push(Event::Transfer { from: Address::zero(), to, value });
        Ok(())
    }

    /// Destroy `value` tokens from `from`'s account. Only the privileged
    /// principal or the account owner itself may burn: any other caller
    /// gets `Unauthorized`. A balance below `value` gives
    /// `InsufficientBalance`. On success the supply and `from`'s balance
    /// both shrink by exactly `value`, and a `Transfer` event to the zero
    /// identity is recorded. A failed call leaves the whole state
    /// unchanged.
    pub fn burn(&mut self, caller: Address, from: Address, value: Uint256) -> (r: Result<
        (),
        Error,
    >)
        requires
            old(self).wf(),
        ensures
            final(self).wf(),
            Token::same_admin(*old(self), *final(self)),
            Token::same_allowances(*old(self), *final(self)),
            r matches Ok(_) <==> ((caller == old(self).owner || caller == from) && old(
                self,
            ).balance_nat(from) >= value.as_nat()),
            match r {
                Ok(()) => final(self).supply_nat() == old(self).supply_nat() - value.as_nat()
                    && final(self).balance_nat(from) == old(self).balance_nat(from)
                    - value.as_nat() && (forall|b: Address|
                    b != from ==> final(self).balance_nat(b) == old(self).balance_nat(b))
                    && final(self).log@ == old(self).log@.push(
                    Event::Transfer { from, to: Address::spec_zero(), value },
                ),
                Err(e) => *final(self) == *old(self) && (e == Error::Unauthorized <==> !(caller
                    == old(self).owner || caller == from)) && (e == Error::Unauthorized || e
                    == Error::InsufficientBalance),
            },
    {
        match require_self_or_privileged(caller, from, self.owner) {
            Ok(()) => {},
            Err(e) => {
                return Err(e);
            },
        }
        match self.ledger.debit(from, value) {
            Ok(()) => {},
            Err(e) => {
                return Err(e);
            },
        }
        self.ledger.sub_supply(value);
        self.log.push(Event::Transfer { from, to: Address::zero(), value });
        Ok(())
    }

    /// A delegated transfer that also notifies the recipient contract.
    ///
    /// Checks-effects-interactions: every balance and allowance mutation
    /// of the delegated transfer completes before the request is handed
    /// out, so at the moment the host delivers the call the token is in
    /// the fully-updated state this contract describes — a re-entrant
    /// call back into the ledger observes that complete state, never a
    /// partially updated balance/allowance pair. The outcome of the call
    /// is judged afterwards by the call shim, which touches no state.
    pub fn transfer_from_with_notification(
        &mut self,
        caller: Address,
        from: Address,
        to: Address,
        value: Uint256,
    ) -> (r: Result<NotifyRequest, Error>)
        requires
            old(self).wf(),
        ensures
            final(self).wf(),
            Token::same_admin(*old(self), *final(self)),
            final(self).supply_nat() == old(self).supply_nat(),
            r matches Ok(_) <==> (!to.spec_is_zero() && old(self).allowance_nat(from, caller)
                >= value.as_nat() && old(self).balance_nat(from) >= value.as_nat()),
            match r {
                Ok(req) => req == (NotifyRequest { from, to, value }) && Token::balances_moved(
                    *old(self),
                    *final(self),
                    from,
                    to,
                    value.as_nat(),
                ) && final(self).allowance_nat(from, caller) == old(self).allowance_nat(
                    from,
                    caller,
                ) - value.as_nat(),
                Err(e) => *final(self) == *old(self),
            },
    {
        match self.transfer_from(caller, from, to, value) {
            Ok(_) => Ok(NotifyRequest { from, to, value }),
            Err(e) => Err(e),
        }
    }
}

/// Conservation: in every well-formed state the total supply equals the
/// sum of all account balances. Every constructor and operation of the
/// token ensures `wf`, so this holds of every reachable state.
pub proof fn lemma_conservation(t: Token)
    requires
        t.wf(),
    ensures
        t.supply_nat() == sum_of(t.ledger.balances@),
{
}

/// No balance, and not the supply counter, can leave its representable
/// range: each balance is bounded by the supply, which is itself below
/// 2^256. Together with conservation this is why a credit performed by a
/// transfer or a mint can never wrap.
pub proof fn lemma_balances_bounded(t: Token, a: Address)
    requires
        t.wf(),
    ensures
        t.balance_nat(a) <= t.supply_nat(),
        t.supply_nat() <= u256_max(),
{
    lemma_bal_le_sum(t.ledger.balances@, a);
    lemma_as_nat_bound(t.ledger.supply);
}

} // verus!
