//! The balances pallet: owner of a per-account balance and of the checked
//! transfer operation. An account with no stored balance reads as zero.

use crate::storage::StorageMap;
use crate::support::{DispatchError, DispatchResult};
use vstd::prelude::*;

verus! {

/// The balance recorded for `who`, zero for accounts that never held funds.
pub open spec fn balance_of(balances: Map<Seq<char>, u128>, who: Seq<char>) -> u128 {
    if balances.contains_key(who) {
        balances[who]
    } else {
        0u128
    }
}

/// The mapping after a transfer, and the transfer's outcome. Both balances are
/// read and both checks pass before either entry is written. A transfer from
/// an account to itself passes the same checks but moves nothing: debit and
/// credit cancel, so the mapping stays as it was.
pub open spec fn spec_transfer(
    balances: Map<Seq<char>, u128>,
    caller: Seq<char>,
    to: Seq<char>,
    amount: u128,
) -> (Map<Seq<char>, u128>, DispatchResult) {
    let caller_balance = balance_of(balances, caller);
    let to_balance = balance_of(balances, to);
    if amount > caller_balance {
        (balances, Err(DispatchError::InsufficientFunds))
    } else if to_balance + amount > u128::MAX {
        (balances, Err(DispatchError::BalanceOverflow))
    } else if caller == to {
        (balances, Ok(()))
    } else {
        (
            balances.insert(caller, (caller_balance - amount) as u128).insert(
                to,
                (to_balance + amount) as u128,
            ),
            Ok(()),
        )
    }
}

/// The mapping after dispatching `call` on behalf of `caller`, and the outcome.
pub open spec fn spec_dispatch(
    balances: Map<Seq<char>, u128>,
    caller: Seq<char>,
    call: Call,
) -> (Map<Seq<char>, u128>, DispatchResult) {
    match call {
        Call::Transfer { to, amount } => spec_transfer(balances, caller, to@, amount),
    }
}

/// The pallet owning every account's balance.
#[derive(Debug)]
pub struct Pallet {
    balances: StorageMap<u128>,
}

impl View for Pallet {
    type V = Map<Seq<char>, u128>;

    closed spec fn view(&self) -> Map<Seq<char>, u128> {
        self.balances@
    }
}

/// The calls the balances pallet exposes to the dispatcher. The caller is
/// supplied by the dispatcher, never carried as a field.
#[derive(Debug)]
pub enum Call {
    Transfer { to: String, amount: u128 },
}

impl Pallet {
    /// The structural invariant of the balance store.
    pub closed spec fn wf(&self) -> bool {
        self.balances.wf()
    }

    /// A fresh pallet with no balance recorded.
    pub fn new() -> (r: Self)
        ensures
            r.wf(),
            r@ == Map::<Seq<char>, u128>::empty(),
    {
        Pallet { balances: StorageMap::new() }
    }

    /// Overwrites the balance of `who`; used for initial seeding only and not
    /// reachable through dispatch.
    pub fn set_balance(&mut self, who: &String, amount: u128)
        requires
            old(self).wf(),
        ensures
            final(self).wf(),
            final(self)@ == old(self)@.insert(who@, amount),
    {
        self.balances.insert(who.clone(), amount);
    }

    /// The balance of `who`, zero for accounts that never held funds.
    pub fn balance(&self, who: &String) -> (r: u128)
        requires
            self.wf(),
        ensures
            r == balance_of(self@, who@),
    {
        match self.balances.get(who) {
            Some(b) => *b,
            None => 0,
        }
    }

    /// Moves `amount` from `caller` to `to`. Fails with `InsufficientFunds`
    /// when `caller` holds less than `amount`, and with `BalanceOverflow` when
    /// the credit would leave the numeric range; on failure neither balance
    /// changes. A transfer from an account to itself passes the same checks
    /// and leaves the balance unchanged, conserving the total.
    pub fn transfer(&mut self, caller: String, to: String, amount: u128) -> (r: DispatchResult)
        requires
            old(self).wf(),
        ensures
            final(self).wf(),
            final(self)@ == spec_transfer(old(self)@, caller@, to@, amount).0,
            r == spec_transfer(old(self)@, caller@, to@, amount).1,
    {
        let caller_balance = self.balance(&caller);
        let to_balance = self.balance(&to);
        if amount > caller_balance {
            return Err(DispatchError::InsufficientFunds);
        }
        if amount > u128::MAX - to_balance {
            return Err(DispatchError::BalanceOverflow);
        }
        if caller != to {
            self.set_balance(&caller, caller_balance - amount);
            self.set_balance(&to, to_balance + amount);
        }
        Ok(())
    }

    /// Routes `call` to the operation that implements it, injecting `caller`.
    pub fn dispatch(&mut self, caller: String, call: Call) -> (r: DispatchResult)
        requires
            old(self).wf(),
        ensures
            final(self).wf(),
            final(self)@ == spec_dispatch(old(self)@, caller@, call).0,
            r == spec_dispatch(old(self)@, caller@, call).1,
    {
        match call {
            Call::Transfer { to, amount } => self.transfer(caller, to, amount),
        }
    }
}

/// A transfer of more than the sender holds fails with `InsufficientFunds`
/// and leaves every balance unchanged.
pub proof fn lemma_transfer_insufficient_funds(
    balances: Map<Seq<char>, u128>,
    caller: Seq<char>,
    to: Seq<char>,
    amount: u128,
)
    requires
        amount > balance_of(balances, caller),
    ensures
        spec_transfer(balances, caller, to, amount).0 == balances,
        spec_transfer(balances, caller, to, amount).1 == Err::<(), DispatchError>(
            DispatchError::InsufficientFunds,
        ),
{
}

/// A transfer that would push the recipient past the numeric range fails with
/// `BalanceOverflow` and leaves every balance unchanged.
pub proof fn lemma_transfer_overflow(
    balances: Map<Seq<char>, u128>,
    caller: Seq<char>,
    to: Seq<char>,
    amount: u128,
)
    requires
        amount <= balance_of(balances, caller),
        balance_of(balances, to) + amount > u128::MAX,
    ensures
        spec_transfer(balances, caller, to, amount).0 == balances,
        spec_transfer(balances, caller, to, amount).1 == Err::<(), DispatchError>(
            DispatchError::BalanceOverflow,
        ),
{
}

/// A successful transfer conserves the sum of the two accounts' balances and
/// touches no other account.
pub proof fn lemma_transfer_conserves(
    balances: Map<Seq<char>, u128>,
    caller: Seq<char>,
    to: Seq<char>,
    amount: u128,
)
    requires
        spec_transfer(balances, caller, to, amount).1 == Ok::<(), DispatchError>(()),
    ensures
        balance_of(spec_transfer(balances, caller, to, amount).0, caller) + balance_of(
            spec_transfer(balances, caller, to, amount).0,
            to,
        ) == balance_of(balances, caller) + balance_of(balances, to),
        forall|other: Seq<char>|
            other != caller && other != to ==> #[trigger] balance_of(
                spec_transfer(balances, caller, to, amount).0,
                other,
            ) == balance_of(balances, other),
{
}

} // verus!
