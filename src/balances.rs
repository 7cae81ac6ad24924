//! A ledger of free balances that moves funds for the kitty ledger.

use vstd::prelude::*;

use crate::kitties::{AccountId, Balance, Currency, FundsError};

verus! {

broadcast use vstd::std_specs::hash::group_hash_axioms;

/// Free balances by account, with the minimum that a payer must keep.
pub struct Balances {
    free: std::collections::HashMap<AccountId, Balance>,
    existential_deposit: Balance,
    log: Ghost<Seq<(AccountId, AccountId, Balance)>>,
    refusal: Ghost<Option<FundsError>>,
}

/// What a payment of `value` from `source` to `dest` does to `free`: the
/// new balances, or why it is refused. A payer must keep at least
/// `existential_deposit`, and no balance may exceed the largest `Balance`.
pub open spec fn payment_outcome(
    free: Map<AccountId, Balance>,
    existential_deposit: Balance,
    source: AccountId,
    dest: AccountId,
    value: Balance,
) -> Result<Map<AccountId, Balance>, FundsError> {
    let have = balance_in(free, source);
    if have < value {
        Err(FundsError::InsufficientBalance)
    } else if have - value < existential_deposit {
        Err(FundsError::KeepAlive)
    } else if source == dest {
        Ok(free)
    } else if balance_in(free, dest) + value > u128::MAX {
        Err(FundsError::Other)
    } else {
        Ok(
            free.insert(source, (have - value) as Balance).insert(
                dest,
                (balance_in(free, dest) + value) as Balance,
            ),
        )
    }
}

/// The balance of `who`: zero for an account never credited.
pub open spec fn balance_in(free: Map<AccountId, Balance>, who: AccountId) -> Balance {
    if free.contains_key(who) {
        free[who]
    } else {
        0
    }
}

impl Balances {
    /// The free balance of each account that has one.
    pub closed spec fn free_map(&self) -> Map<AccountId, Balance> {
        self.free@
    }

    /// The minimum that a payer must keep.
    pub closed spec fn minimum(&self) -> Balance {
        self.existential_deposit
    }

    /// A ledger where no account holds anything yet.
    pub fn new(existential_deposit: Balance) -> (r: Balances)
        ensures
            r.free_map().is_empty(),
            r.minimum() == existential_deposit,
            r.payments().len() == 0,
            r.last_refusal() is None,
    {
        Balances {
            free: std::collections::HashMap::new(),
            existential_deposit,
            log: Ghost(Seq::empty()),
            refusal: Ghost(None),
        }
    }

    /// The free balance of `who`.
    pub fn free_balance(&self, who: AccountId) -> (r: Balance)
        ensures
            r == balance_in(self.free_map(), who),
    {
        match self.free.get(&who) {
            Some(b) => *b,
            None => 0,
        }
    }

    /// Sets the free balance of `who`, as a genesis configuration or an
    /// administrator may.
    pub fn set_balance(&mut self, who: AccountId, value: Balance)
        ensures
            final(self).free_map() == old(self).free_map().insert(who, value),
            final(self).minimum() == old(self).minimum(),
            final(self).payments() == old(self).payments(),
            final(self).last_refusal() == old(self).last_refusal(),
    {
        self.free.insert(who, value);
    }

    /// Pays `value` from `source` to `dest` where `payment_outcome` allows
    /// it, and records the payment or the refusal.
    pub fn pay(&mut self, source: AccountId, dest: AccountId, value: Balance) -> (r: Result<
        (),
        FundsError,
    >)
        ensures
            final(self).minimum() == old(self).minimum(),
            match payment_outcome(old(self).free_map(), old(self).minimum(), source, dest, value) {
                Ok(free) => {
                    &&& r is Ok
                    &&& final(self).free_map() == free
                    &&& final(self).payments() == old(self).payments().push((source, dest, value))
                    &&& final(self).last_refusal() == old(self).last_refusal()
                },
                Err(e) => {
                    &&& r == Err::<(), FundsError>(e)
                    &&& final(self).free_map() == old(self).free_map()
                    &&& final(self).payments() == old(self).payments()
                    &&& final(self).last_refusal() == Some(e)
                },
            },
    {
        let have = self.free_balance(source);
        if have < value {
            self.refusal = Ghost(Some(FundsError::InsufficientBalance));
            return Err(FundsError::InsufficientBalance);
        }
        if have - value < self.existential_deposit {
            self.refusal = Ghost(Some(FundsError::KeepAlive));
            return Err(FundsError::KeepAlive);
        }
        if source != dest {
            let to = self.free_balance(dest);
            let credited = match to.checked_add(value) {
                Some(c) => c,
                None => {
                    self.refusal = Ghost(Some(FundsError::Other));
                    return Err(FundsError::Other);
                },
            };
            self.free.insert(source, have - value);
            self.free.insert(dest, credited);
        }
        self.log = Ghost(self.log@.push((source, dest, value)));
        Ok(())
    }
}

impl Currency for Balances {
    closed spec fn payments(&self) -> Seq<(AccountId, AccountId, Balance)> {
        self.log@
    }

    closed spec fn last_refusal(&self) -> Option<FundsError> {
        self.refusal@
    }

    fn transfer(&mut self, source: AccountId, dest: AccountId, value: Balance) -> (r: Result<
        (),
        FundsError,
    >) {
        self.pay(source, dest, value)
    }
}

} // verus!
