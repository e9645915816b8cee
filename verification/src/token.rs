//! A model of the external asset ledger at its consumed interface: balances,
//! approved allowances, and a fallible, non-panicking `transfer`.
//!
//! The escrow state machine never inspects the ledger's internals; it only
//! calls [`TokenLedger::balance`], [`TokenLedger::allowance`] and
//! [`TokenLedger::transfer`] on a ledger handed in by the host, and checks
//! every transfer's result. Approvals here are advisory credit lines read by
//! clients before transferring; `transfer` itself moves balances only.

use vstd::prelude::*;
use crate::store::IdMap;
use crate::types::TransferError;

verus! {

/// Approved allowances, keyed by the pair (owner, spender).
pub struct AllowanceTable {
    entries: Vec<(u64, u64, i128)>,
}

impl AllowanceTable {
    /// The recorded approvals.
    pub closed spec fn seq(self) -> Seq<(u64, u64, i128)> {
        self.entries@
    }

    /// Each (owner, spender) pair appears at most once.
    pub closed spec fn wf(self) -> bool {
        forall|i: int, j: int|
            0 <= i < j < self.entries@.len() ==> !((#[trigger] self.entries@[i]).0 == (
            #[trigger] self.entries@[j]).0 && self.entries@[i].1 == self.entries@[j].1)
    }

    /// What `owner` has approved `spender` to spend; 0 when nothing was
    /// approved.
    pub closed spec fn amount_of(self, owner: u64, spender: u64) -> int {
        if exists|i: int|
            0 <= i < self.entries@.len() && (#[trigger] self.entries@[i]).0 == owner
                && self.entries@[i].1 == spender {
            let i = choose|i: int|
                0 <= i < self.entries@.len() && (#[trigger] self.entries@[i]).0 == owner
                    && self.entries@[i].1 == spender;
            self.entries@[i].2 as int
        } else {
            0
        }
    }

    /// The entry at position `i` is what `amount_of` reports for its pair.
    proof fn lemma_entry_at(self, i: int)
        requires
            self.wf(),
            0 <= i < self.seq().len(),
        ensures
            self.amount_of(self.seq()[i].0, self.seq()[i].1) == self.seq()[i].2 as int,
    {
        let owner = self.seq()[i].0;
        let spender = self.seq()[i].1;
        assert(0 <= i < self.entries@.len() && self.entries@[i].0 == owner && self.entries@[i].1
            == spender);
        let j = choose|j: int|
            0 <= j < self.entries@.len() && (#[trigger] self.entries@[j]).0 == owner
                && self.entries@[j].1 == spender;
        if i < j {
            assert(!(self.entries@[i].0 == self.entries@[j].0 && self.entries@[i].1
                == self.entries@[j].1));
        } else if j < i {
            assert(!(self.entries@[j].0 == self.entries@[i].0 && self.entries@[j].1
                == self.entries@[i].1));
        }
    }

    /// An empty table.
    pub fn new() -> (r: Self)
        ensures
            r.wf(),
            forall|o: u64, s: u64| r.amount_of(o, s) == 0,
    {
        let r = AllowanceTable { entries: Vec::new() };
        proof {
            assert forall|o: u64, s: u64| r.amount_of(o, s) == 0 by {
                assert(r.entries@.len() == 0);
            }
        }
        r
    }

    /// What `owner` has approved `spender` to spend.
    #[verifier::loop_isolation(false)]
    pub fn get(&self, owner: u64, spender: u64) -> (r: i128)
        requires
            self.wf(),
        ensures
            r as int == self.amount_of(owner, spender),
    {
        let mut i: usize = 0;
        while i < self.entries.len()
            invariant
                0 <= i <= self.entries@.len(),
                forall|j: int|
                    0 <= j < i ==> !((#[trigger] self.entries@[j]).0 == owner
                        && self.entries@[j].1 == spender),
            decreases self.entries@.len() - i,
        {
            if self.entries[i].0 == owner && self.entries[i].1 == spender {
                proof {
                    self.lemma_entry_at(i as int);
                }
                return self.entries[i].2;
            }
            i += 1;
        }
        proof {
            assert(!exists|j: int|
                0 <= j < self.entries@.len() && (#[trigger] self.entries@[j]).0 == owner
                    && self.entries@[j].1 == spender);
        }
        0
    }

    /// Records that `owner` approves `spender` for `amount`, replacing any
    /// earlier approval of that pair.
    #[verifier::loop_isolation(false)]
    pub fn set(&mut self, owner: u64, spender: u64, amount: i128)
        requires
            old(self).wf(),
        ensures
            final(self).wf(),
            final(self).amount_of(owner, spender) == amount as int,
            forall|o: u64, s: u64|
                !(o == owner && s == spender) ==> #[trigger] final(self).amount_of(o, s) == old(
                    self,
                ).amount_of(o, s),
    {
        let ghost s0 = old(self).seq();
        let mut i: usize = 0;
        while i < self.entries.len()
            invariant
                *self == *old(self),
                0 <= i <= self.entries@.len(),
                forall|j: int|
                    0 <= j < i ==> !((#[trigger] self.entries@[j]).0 == owner
                        && self.entries@[j].1 == spender),
            decreases self.entries@.len() - i,
        {
            if self.entries[i].0 == owner && self.entries[i].1 == spender {
                let ghost pos = i as int;
                self.entries.set(i, (owner, spender, amount));
                proof {
                    let s1 = self.seq();
                    assert(s1 == s0.update(pos, (owner, spender, amount)));
                    assert forall|a: int, b: int| 0 <= a < b < s1.len() implies !((
                    #[trigger] s1[a]).0 == (#[trigger] s1[b]).0 && s1[a].1 == s1[b].1) by {
                        assert(!(s0[a].0 == s0[b].0 && s0[a].1 == s0[b].1));
                        assert(s1[a].0 == s0[a].0 && s1[a].1 == s0[a].1);
                        assert(s1[b].0 == s0[b].0 && s1[b].1 == s0[b].1);
                    }
                    self.lemma_entry_at(pos);
                    assert forall|o: u64, s: u64| !(o == owner && s == spender) implies #[trigger]
                        self.amount_of(o, s) == old(self).amount_of(o, s) by {
                        self.lemma_set_frame(*old(self), pos, o, s);
                    }
                }
                return ;
            }
            i += 1;
        }
        let ghost pos = self.entries@.len() as int;
        self.entries.push((owner, spender, amount));
        proof {
            let s1 = self.seq();
            assert(s1 == s0.push((owner, spender, amount)));
            assert forall|a: int, b: int| 0 <= a < b < s1.len() implies !((#[trigger] s1[a]).0 == (
            #[trigger] s1[b]).0 && s1[a].1 == s1[b].1) by {
                if b < s0.len() {
                    assert(!(s0[a].0 == s0[b].0 && s0[a].1 == s0[b].1));
                } else {
                    assert(s1[b] == (owner, spender, amount));
                    assert(s1[a] == s0[a]);
                    assert(!(s0[a].0 == owner && s0[a].1 == spender));
                }
            }
            self.lemma_entry_at(pos);
            assert forall|o: u64, s: u64| !(o == owner && s == spender) implies #[trigger]
                self.amount_of(o, s) == old(self).amount_of(o, s) by {
                self.lemma_set_frame(*old(self), pos, o, s);
            }
        }
    }

    /// Changing or adding the entry at `pos` leaves every other pair's
    /// approval as it was.
    proof fn lemma_set_frame(self, prior: Self, pos: int, o: u64, s: u64)
        requires
            self.wf(),
            prior.wf(),
            0 <= pos < self.seq().len(),
            self.seq().len() == prior.seq().len() || (self.seq().len() == prior.seq().len() + 1
                && pos == prior.seq().len()),
            forall|j: int|
                0 <= j < self.seq().len() && j != pos ==> #[trigger] self.seq()[j]
                    == prior.seq()[j],
            !(o == self.seq()[pos].0 && s == self.seq()[pos].1),
            self.seq().len() == prior.seq().len() ==> (prior.seq()[pos].0 == self.seq()[pos].0
                && prior.seq()[pos].1 == self.seq()[pos].1),
        ensures
            self.amount_of(o, s) == prior.amount_of(o, s),
    {
        if exists|i: int|
            0 <= i < self.seq().len() && (#[trigger] self.seq()[i]).0 == o && self.seq()[i].1
                == s {
            let i = choose|i: int|
                0 <= i < self.seq().len() && (#[trigger] self.seq()[i]).0 == o && self.seq()[i].1
                    == s;
            assert(i != pos);
            assert(prior.seq()[i] == self.seq()[i]);
            self.lemma_entry_at(i);
            prior.lemma_entry_at(i);
        } else {
            if exists|i: int|
                0 <= i < prior.seq().len() && (#[trigger] prior.seq()[i]).0 == o
                    && prior.seq()[i].1 == s {
                let i = choose|i: int|
                    0 <= i < prior.seq().len() && (#[trigger] prior.seq()[i]).0 == o
                        && prior.seq()[i].1 == s;
                assert(i != pos);
                assert(self.seq()[i] == prior.seq()[i]);
                assert(false);
            }
        }
    }
}

/// The asset ledger: non-negative balances and approved allowances.
pub struct TokenLedger {
    balances: IdMap<i128>,
    allowances: AllowanceTable,
}

impl TokenLedger {
    /// The balance held by `a`; 0 for accounts the ledger has never seen.
    pub closed spec fn bal(self, a: u64) -> int {
        if self.balances.as_map().contains_key(a) {
            self.balances.as_map()[a] as int
        } else {
            0
        }
    }

    /// What `owner` has approved `spender` to spend.
    pub closed spec fn alw(self, owner: u64, spender: u64) -> int {
        self.allowances.amount_of(owner, spender)
    }

    /// Internal structure is sound and no balance is negative.
    pub closed spec fn wf(self) -> bool {
        &&& self.balances.wf()
        &&& self.allowances.wf()
        &&& forall|a: u64|
            self.balances.as_map().contains_key(a) ==> #[trigger] self.balances.as_map()[a] >= 0
    }

    /// Whether `transfer(from, to, amount)` would succeed against this
    /// ledger state.
    pub open spec fn can_transfer(self, from: u64, to: u64, amount: int) -> bool {
        &&& 0 <= amount
        &&& self.bal(from) >= amount
        &&& (from == to || self.bal(to) + amount <= i128::MAX)
    }

    /// The balance of `a` after a successful `transfer(from, to, amount)`
    /// against this ledger state.
    pub open spec fn moved_bal(self, from: u64, to: u64, amount: int, a: u64) -> int {
        if from == to {
            self.bal(a)
        } else if a == from {
            self.bal(a) - amount
        } else if a == to {
            self.bal(a) + amount
        } else {
            self.bal(a)
        }
    }

    /// Both ledgers record the same approvals.
    pub open spec fn allowances_unchanged(self, prior: Self) -> bool {
        forall|o: u64, s: u64| #[trigger] self.alw(o, s) == prior.alw(o, s)
    }

    /// Both ledgers hold the same balances.
    pub open spec fn balances_unchanged(self, prior: Self) -> bool {
        forall|a: u64| #[trigger] self.bal(a) == prior.bal(a)
    }

    /// In a well-formed ledger no balance is negative.
    pub proof fn lemma_balances_nonneg(self)
        requires
            self.wf(),
        ensures
            forall|a: u64| #[trigger] self.bal(a) >= 0,
    {
    }

    /// An empty ledger: every balance and allowance is 0.
    pub fn new() -> (r: Self)
        ensures
            r.wf(),
            forall|a: u64| r.bal(a) == 0,
            forall|o: u64, s: u64| r.alw(o, s) == 0,
    {
        TokenLedger { balances: IdMap::new(), allowances: AllowanceTable::new() }
    }

    /// The balance held by `a`.
    pub fn balance(&self, a: u64) -> (r: i128)
        requires
            self.wf(),
        ensures
            r as int == self.bal(a),
    {
        match self.balances.get(a) {
            Some(v) => v,
            None => 0,
        }
    }

    /// What `owner` has approved `spender` to spend.
    pub fn allowance(&self, owner: u64, spender: u64) -> (r: i128)
        requires
            self.wf(),
        ensures
            r as int == self.alw(owner, spender),
    {
        self.allowances.get(owner, spender)
    }

    /// Issues `amount` new units to `to`.
    pub fn mint(&mut self, to: u64, amount: i128)
        requires
            old(self).wf(),
            0 <= amount,
            old(self).bal(to) + amount <= i128::MAX,
        ensures
            final(self).wf(),
            final(self).bal(to) == old(self).bal(to) + amount,
            forall|a: u64| a != to ==> #[trigger] final(self).bal(a) == old(self).bal(a),
            final(self).allowances_unchanged(*old(self)),
    {
        let b = self.balance(to);
        self.balances.upsert(to, b + amount);
    }

    /// Records that `owner` approves `spender` for `amount`.
    pub fn approve(&mut self, owner: u64, spender: u64, amount: i128)
        requires
            old(self).wf(),
            0 <= amount,
        ensures
            final(self).wf(),
            final(self).alw(owner, spender) == amount as int,
            forall|o: u64, s: u64|
                !(o == owner && s == spender) ==> #[trigger] final(self).alw(o, s) == old(self).alw(o, s),
            final(self).balances_unchanged(*old(self)),
    {
        self.allowances.set(owner, spender, amount);
    }

    /// Moves `amount` from `from` to `to`. Fails, changing nothing, when the
    /// amount is negative, exceeds the sender's balance, or would push the
    /// recipient's balance past the representable range; succeeds otherwise,
    /// also when `from == to` (then nothing moves). Allowances are advisory
    /// and are neither consulted nor consumed here.
    pub fn transfer(&mut self, from: u64, to: u64, amount: i128) -> (r: Result<(), TransferError>)
        requires
            old(self).wf(),
        ensures
            final(self).wf(),
            final(self).allowances_unchanged(*old(self)),
            match r {
                Ok(_) => {
                    &&& old(self).can_transfer(from, to, amount as int)
                    &&& forall|a: u64| #[trigger]
                        final(self).bal(a) == old(self).moved_bal(from, to, amount as int, a)
                },
                Err(e) => {
                    &&& !old(self).can_transfer(from, to, amount as int)
                    &&& final(self).balances_unchanged(*old(self))
                    &&& (e == TransferError::InsufficientBalance <==> (amount < 0 || old(self).bal(
                        from,
                    ) < amount))
                },
            },
    {
        if amount < 0 {
            return Err(TransferError::InsufficientBalance);
        }
        let from_balance = self.balance(from);
        if from_balance < amount {
            return Err(TransferError::InsufficientBalance);
        }
        if from == to {
            return Ok(());
        }
        let to_balance = self.balance(to);
        if to_balance > i128::MAX - amount {
            return Err(TransferError::ReceiverOverflow);
        }
        self.balances.upsert(from, from_balance - amount);
        self.balances.upsert(to, to_balance + amount);
        Ok(())
    }
}

} // verus!
