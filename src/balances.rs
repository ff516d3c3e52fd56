//! A ledger of free balances: the transfers that bounties, deposits and
//! rewards go through.

use vstd::prelude::*;
use crate::encoding::eq_bytes32;
use crate::types::{AccountId, Balance, LedgerError};

verus! {

/// What a ledger holds: a free balance per account (absent means zero) and
/// the balance below which a kept-alive sender may not fall.
pub struct BalancesView {
    pub free: Map<Seq<u8>, Balance>,
    pub existential_deposit: Balance,
}

impl BalancesView {
    /// Free balance of `who`.
    pub open spec fn free_balance(self, who: Seq<u8>) -> nat {
        if self.free.contains_key(who) {
            self.free[who] as nat
        } else {
            0
        }
    }

    /// The outcome of moving `amount` from `from` to `to`. With `keep_alive`
    /// the sender must keep at least the existential deposit.
    pub open spec fn transfer(
        self,
        from: Seq<u8>,
        to: Seq<u8>,
        amount: Balance,
        keep_alive: bool,
    ) -> Result<BalancesView, LedgerError> {
        let fb = self.free_balance(from);
        let tb = self.free_balance(to);
        if fb < amount {
            Err(LedgerError::InsufficientBalance)
        } else if keep_alive && fb - amount < self.existential_deposit {
            Err(LedgerError::KeepAlive)
        } else if from == to {
            Ok(self)
        } else if tb + amount > u128::MAX {
            Err(LedgerError::Overflow)
        } else {
            Ok(
                BalancesView {
                    free: self.free.insert(from, (fb - amount) as u128).insert(
                        to,
                        (tb + amount) as u128,
                    ),
                    ..self
                },
            )
        }
    }
}

/// An in-memory ledger.
pub struct Balances {
    accounts: Vec<(AccountId, Balance)>,
    existential_deposit: Balance,
    free: Ghost<Map<Seq<u8>, Balance>>,
}

impl View for Balances {
    type V = BalancesView;

    closed spec fn view(&self) -> BalancesView {
        BalancesView { free: self.free@, existential_deposit: self.existential_deposit }
    }
}

impl Balances {
    /// The entries agree with the model, one entry per account.
    pub closed spec fn wf(&self) -> bool {
        &&& forall|i: int, j: int|
            0 <= i < j < self.accounts@.len() ==> self.accounts@[i].0@ != self.accounts@[j].0@
        &&& forall|i: int|
            0 <= i < self.accounts@.len() ==> {
                &&& #[trigger] self.free@.contains_key(self.accounts@[i].0@)
                &&& self.free@[self.accounts@[i].0@] == self.accounts@[i].1
            }
        &&& forall|a: Seq<u8>|
            #[trigger] self.free@.contains_key(a) ==> exists|i: int|
                0 <= i < self.accounts@.len() && self.accounts@[i].0@ == a
    }

    /// An empty ledger.
    pub fn new(existential_deposit: Balance) -> (r: Balances)
        ensures
            r.wf(),
            r@.free == Map::<Seq<u8>, Balance>::empty(),
            r@.existential_deposit == existential_deposit,
    {
        Balances { accounts: Vec::new(), existential_deposit, free: Ghost(Map::empty()) }
    }

    /// Position of the entry of `who`.
    fn find(&self, who: &AccountId) -> (r: Option<usize>)
        requires
            self.wf(),
        ensures
            match r {
                Some(i) => i < self.accounts@.len() && self.accounts@[i as int].0@ == who@,
                None => !self@.free.contains_key(who@),
            },
    {
        let mut i: usize = 0;
        while i < self.accounts.len()
            invariant
                self.wf(),
                i <= self.accounts@.len(),
                forall|k: int| 0 <= k < i ==> self.accounts@[k].0@ != who@,
            decreases self.accounts@.len() - i,
        {
            if eq_bytes32(&self.accounts[i].0, who) {
                return Some(i);
            }
            i = i + 1;
        }
        None
    }

    /// Free balance of `who`.
    pub fn free_balance(&self, who: &AccountId) -> (r: Balance)
        requires
            self.wf(),
        ensures
            r == self@.free_balance(who@),
    {
        match self.find(who) {
            Some(i) => self.accounts[i].1,
            None => 0,
        }
    }

    /// Sets the free balance of `who`, as a genesis or a mint would.
    pub fn set_balance(&mut self, who: &AccountId, amount: Balance)
        requires
            old(self).wf(),
        ensures
            final(self).wf(),
            final(self)@.free == old(self)@.free.insert(who@, amount),
            final(self)@.existential_deposit == old(self)@.existential_deposit,
    {
        let ghost model = self.free@.insert(who@, amount);
        match self.find(who) {
            Some(i) => {
                self.accounts.set(i, (*who, amount));
                self.free = Ghost(model);
                assert forall|j: int, k: int| 0 <= j < k < self.accounts@.len() implies
                    self.accounts@[j].0@ != self.accounts@[k].0@ by {
                    assert(old(self).accounts@[j].0@ != old(self).accounts@[k].0@);
                }
                assert forall|j: int| 0 <= j < self.accounts@.len() implies {
                    &&& #[trigger] self.free@.contains_key(self.accounts@[j].0@)
                    &&& self.free@[self.accounts@[j].0@] == self.accounts@[j].1
                } by {
                    if j != i {
                        assert(old(self).accounts@[j].0@ != old(self).accounts@[i as int].0@);
                    }
                }
                assert forall|a: Seq<u8>| #[trigger] self.free@.contains_key(a) implies exists|k: int|
                    0 <= k < self.accounts@.len() && self.accounts@[k].0@ == a by {
                    if a != who@ {
                        let k = choose|k: int|
                            0 <= k < old(self).accounts@.len() && old(self).accounts@[k].0@ == a;
                        assert(self.accounts@[k].0@ == a);
                    } else {
                        assert(self.accounts@[i as int].0@ == a);
                    }
                }
            },
            None => {
                proof {
                    assert forall|j: int| 0 <= j < old(self).accounts@.len() implies
                        old(self).accounts@[j].0@ != who@ by {
                        assert(old(self).free@.contains_key(old(self).accounts@[j].0@));
                    }
                }
                self.accounts.push((*who, amount));
                self.free = Ghost(model);
                assert forall|j: int, k: int| 0 <= j < k < self.accounts@.len() implies
                    self.accounts@[j].0@ != self.accounts@[k].0@ by {
                    if k < old(self).accounts@.len() {
                        assert(old(self).accounts@[j].0@ != old(self).accounts@[k].0@);
                    }
                }
                assert forall|j: int| 0 <= j < self.accounts@.len() implies {
                    &&& #[trigger] self.free@.contains_key(self.accounts@[j].0@)
                    &&& self.free@[self.accounts@[j].0@] == self.accounts@[j].1
                } by {
                    if j < old(self).accounts@.len() {
                        assert(old(self).free@.contains_key(old(self).accounts@[j].0@));
                    }
                }
                assert forall|a: Seq<u8>| #[trigger] self.free@.contains_key(a) implies exists|k: int|
                    0 <= k < self.accounts@.len() && self.accounts@[k].0@ == a by {
                    if a != who@ {
                        let k = choose|k: int|
                            0 <= k < old(self).accounts@.len() && old(self).accounts@[k].0@ == a;
                        assert(self.accounts@[k].0@ == a);
                    } else {
                        assert(self.accounts@[old(self).accounts@.len() as int].0@ == a);
                    }
                }
            },
        }
    }

    /// Moves `amount` from `from` to `to`; on failure nothing changes.
    pub fn transfer(
        &mut self,
        from: &AccountId,
        to: &AccountId,
        amount: Balance,
        keep_alive: bool,
    ) -> (r: Result<(), LedgerError>)
        requires
            old(self).wf(),
        ensures
            final(self).wf(),
            match old(self)@.transfer(from@, to@, amount, keep_alive) {
                Ok(v) => r is Ok && final(self)@ == v,
                Err(e) => r == Err::<(), LedgerError>(e) && final(self)@ == old(self)@,
            },
    {
        let fb = self.free_balance(from);
        let tb = self.free_balance(to);
        if fb < amount {
            return Err(LedgerError::InsufficientBalance);
        }
        if keep_alive && fb - amount < self.existential_deposit {
            return Err(LedgerError::KeepAlive);
        }
        if eq_bytes32(from, to) {
            return Ok(());
        }
        if tb > u128::MAX - amount {
            return Err(LedgerError::Overflow);
        }
        self.set_balance(from, fb - amount);
        self.set_balance(to, tb + amount);
        Ok(())
    }
}

} // verus!
