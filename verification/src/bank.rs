//! The bank: balances per account, deposits and withdrawals.

use crate::account::AccountId;
use crate::host::TransferHost;
use crate::model::{
    balance_in, can_credit, committed, committed_if_covered, concluded, covers, credited,
    credited_if_possible, finished, has_room, recorded, Entries,
};
use crate::storage::{count, empty_map, entries, lookup, store, BalanceMap};
use vstd::prelude::*;

verus! {

/// A ledger of balances, one per account. An account without an entry has a
/// balance of zero; entries are never removed.
pub struct Bank {
    balances: BalanceMap,
}

/// A withdrawal that has passed the balance check and has not been debited:
/// it waits for the outcome of its transfer. Only a bank makes one, in
/// [`Bank::begin_withdraw`]; it belongs to that bank and is used up by
/// [`Bank::finish_withdraw`].
pub struct Withdrawal {
    to: AccountId,
    amount: u128,
    remaining: u128,
}

impl Withdrawal {
    /// The account that is paid.
    pub closed spec fn spec_to(&self) -> AccountId {
        self.to
    }

    /// The amount that is paid.
    pub closed spec fn spec_amount(&self) -> u128 {
        self.amount
    }

    /// The balance of the account at the check, less the amount.
    pub closed spec fn spec_remaining(&self) -> u128 {
        self.remaining
    }

    /// Whether this is the withdrawal of `amount` by `caller` that a check
    /// against `entries` lets pass.
    pub open spec fn checked_against(&self, entries: Entries, caller: AccountId, amount: u128) -> bool {
        &&& self.to() == caller
        &&& self.amount() == amount
        &&& self.remaining() == balance_in(entries, caller) - amount
    }

    /// The account that is paid.
    #[verifier::when_used_as_spec(spec_to)]
    pub fn to(&self) -> (to: AccountId)
        ensures
            to == self.to(),
    {
        self.to
    }

    /// The amount that is paid.
    #[verifier::when_used_as_spec(spec_amount)]
    pub fn amount(&self) -> (amount: u128)
        ensures
            amount == self.amount(),
    {
        self.amount
    }

    /// The balance of the account at the check, less the amount.
    #[verifier::when_used_as_spec(spec_remaining)]
    pub fn remaining(&self) -> (remaining: u128)
        ensures
            remaining == self.remaining(),
    {
        self.remaining
    }
}

/// An amount that has been taken off a balance ahead of its transfer. Only
/// a bank makes one, in [`Bank::commit_withdraw`]; it belongs to that bank
/// and is used up by [`Bank::conclude_withdraw`].
pub struct Debit {
    to: AccountId,
    amount: u128,
}

impl Debit {
    /// The account that is paid.
    pub closed spec fn spec_to(&self) -> AccountId {
        self.to
    }

    /// The amount that is paid.
    pub closed spec fn spec_amount(&self) -> u128 {
        self.amount
    }

    /// The account that is paid.
    #[verifier::when_used_as_spec(spec_to)]
    pub fn to(&self) -> (to: AccountId)
        ensures
            to == self.to(),
    {
        self.to
    }

    /// The amount that is paid.
    #[verifier::when_used_as_spec(spec_amount)]
    pub fn amount(&self) -> (amount: u128)
        ensures
            amount == self.amount(),
    {
        self.amount
    }
}

impl View for Bank {
    type V = Entries;

    /// The entries of the ledger.
    closed spec fn view(&self) -> Entries {
        entries(self.balances)
    }
}

impl Bank {
    /// The recorded balance of `account`.
    pub open spec fn balance_of(&self, account: AccountId) -> u128 {
        balance_in(self@, account)
    }

    /// A bank without entries.
    pub fn new() -> (bank: Bank)
        ensures
            bank@ == Entries::empty(),
    {
        Bank { balances: empty_map() }
    }

    /// The recorded balance of `account`, zero if it never had one.
    pub fn get_balance(&self, account: AccountId) -> (balance: u128)
        ensures
            balance == self.balance_of(account),
            !self@.contains_key(account) ==> balance == 0,
    {
        match lookup(&self.balances, &account) {
            Some(balance) => balance,
            None => 0,
        }
    }

    /// Whether the ledger can take a balance for `account`.
    fn has_room_for(&self, account: AccountId) -> (room: bool)
        ensures
            room == has_room(self@, account),
    {
        match lookup(&self.balances, &account) {
            Some(_) => true,
            None => count(&self.balances) < u32::MAX,
        }
    }

    /// Writes `balance` for `account`, unless the ledger is full and the
    /// account has no entry.
    fn record(&mut self, account: AccountId, balance: u128)
        ensures
            final(self)@ == recorded(old(self)@, account, balance),
    {
        if self.has_room_for(account) {
            store(&mut self.balances, account, balance);
        }
    }

    /// Adds `amount` to the balance of `caller`; an account without an entry
    /// gets one. The sum has to fit a balance and the ledger has to have
    /// room for the account: [`Bank::try_deposit`] tests both.
    pub fn deposit(&mut self, caller: AccountId, amount: u128)
        requires
            can_credit(old(self)@, caller, amount),
        ensures
            final(self)@ == credited(old(self)@, caller, amount),
    {
        let balance: u128 = self.get_balance(caller);
        store(&mut self.balances, caller, balance + amount);
    }

    /// Adds `amount` to the balance of `caller` if the sum fits a balance and
    /// the ledger has room for the account, and says whether it did.
    pub fn try_deposit(&mut self, caller: AccountId, amount: u128) -> (done: bool)
        ensures
            done == can_credit(old(self)@, caller, amount),
            final(self)@ == credited_if_possible(old(self)@, caller, amount),
    {
        let balance: u128 = self.get_balance(caller);
        if amount <= u128::MAX - balance && self.has_room_for(caller) {
            store(&mut self.balances, caller, balance + amount);
            true
        } else {
            false
        }
    }

    /// The balance check of a withdrawal: lets `amount` pass if the balance
    /// of `caller` covers it. The ledger is not touched.
    pub fn begin_withdraw(&self, caller: AccountId, amount: u128) -> (pending: Option<Withdrawal>)
        ensures
            pending is Some <==> covers(self@, caller, amount),
            pending matches Some(w) ==> w.checked_against(self@, caller, amount),
    {
        let balance: u128 = self.get_balance(caller);
        if balance < amount {
            None
        } else {
            Some(Withdrawal { to: caller, amount, remaining: balance - amount })
        }
    }

    /// The end of a withdrawal that debits last. After a transfer that
    /// succeeded, the balance computed at the check is written over whatever
    /// the ledger holds by now; after one that failed, nothing is written.
    /// Returns whether the funds moved.
    pub fn finish_withdraw(&mut self, pending: Withdrawal, transferred: bool) -> (ok: bool)
        ensures
            ok == transferred,
            final(self)@ == finished(old(self)@, pending.to(), pending.remaining(), transferred),
    {
        if transferred {
            self.record(pending.to, pending.remaining);
        }
        transferred
    }

    /// Withdraws `amount` for `caller`: checks the balance, has the host
    /// transfer the amount, and debits the balance only once the transfer
    /// has succeeded. A host that calls back into the bank during the
    /// transfer finds the balance as it was at the check.
    ///
    /// Returns `false` without a transfer if the balance does not cover the
    /// amount. Otherwise the host is handed the bank as it stands, and the
    /// result is what the host reports; after a success the balance of the
    /// check less `amount` is written over whatever the host has left in
    /// the ledger, after a failure the ledger stays as the host has left it.
    pub fn withdraw<H: TransferHost>(&mut self, caller: AccountId, amount: u128, host: &mut H) -> (ok:
        bool)
        ensures
            !covers(old(self)@, caller, amount) ==> !ok && final(self)@ == old(self)@ && *final(host)
                == *old(host),
            covers(old(self)@, caller, amount) ==> (exists|h: &mut H, b: &mut Bank|
                *h == *old(host) && *final(h) == *final(host) && *b == *old(self)
                    && #[trigger] call_ensures(H::transfer, (h, b, caller, amount), ok)
                    && final(self)@ == finished(
                    final(b)@, caller, (old(self).balance_of(caller) - amount) as u128, ok,
                )),
            ok ==> covers(old(self)@, caller, amount),
            ok && final(self)@.contains_key(caller) ==> final(self).balance_of(caller) == old(
                self,
            ).balance_of(caller) - amount,
            ok && !final(self)@.contains_key(caller) ==> !has_room(final(self)@, caller),
    {
        match self.begin_withdraw(caller, amount) {
            None => false,
            Some(pending) => {
                let transferred = host.transfer(self, caller, amount);
                self.finish_withdraw(pending, transferred)
            },
        }
    }

    /// The first half of a withdrawal that debits first: if the balance of
    /// `caller` covers `amount`, the amount is taken off it at once.
    /// Otherwise the ledger is not touched.
    pub fn commit_withdraw(&mut self, caller: AccountId, amount: u128) -> (debit: Option<Debit>)
        ensures
            debit is Some <==> covers(old(self)@, caller, amount),
            debit matches Some(d) ==> d.to() == caller && d.amount() == amount,
            final(self)@ == committed_if_covered(old(self)@, caller, amount),
    {
        let balance: u128 = self.get_balance(caller);
        if balance < amount {
            None
        } else {
            self.record(caller, balance - amount);
            Some(Debit { to: caller, amount })
        }
    }

    /// The end of a withdrawal that debits first. After a transfer that
    /// failed, the amount is credited back to the balance that the ledger
    /// holds by now; after one that succeeded, nothing is written. Returns
    /// whether the funds moved.
    pub fn conclude_withdraw(&mut self, debit: Debit, transferred: bool) -> (ok: bool)
        ensures
            ok == transferred,
            final(self)@ == concluded(old(self)@, debit.to(), debit.amount(), transferred),
    {
        if !transferred {
            self.try_deposit(debit.to, debit.amount);
        }
        transferred
    }

    /// Withdraws `amount` for `caller` with the debit ahead of the transfer,
    /// so that a host that calls back into the bank during the transfer
    /// finds the balance already debited. Returns `false` without a transfer
    /// if the balance does not cover the amount. Otherwise the host is
    /// handed the bank with the amount taken off, the result is what the
    /// host reports, and after a failure the amount is credited back.
    pub fn withdraw_committed<H: TransferHost>(
        &mut self,
        caller: AccountId,
        amount: u128,
        host: &mut H,
    ) -> (ok: bool)
        ensures
            !covers(old(self)@, caller, amount) ==> !ok && final(self)@ == old(self)@ && *final(host)
                == *old(host),
            covers(old(self)@, caller, amount) ==> (exists|h: &mut H, b: &mut Bank|
                *h == *old(host) && *final(h) == *final(host) && b@ == committed(
                    old(self)@,
                    caller,
                    amount,
                ) && #[trigger] call_ensures(H::transfer, (h, b, caller, amount), ok)
                    && final(self)@ == concluded(final(b)@, caller, amount, ok)),
            ok ==> covers(old(self)@, caller, amount),
    {
        match self.commit_withdraw(caller, amount) {
            None => false,
            Some(debit) => {
                let transferred = host.transfer(self, caller, amount);
                self.conclude_withdraw(debit, transferred)
            },
        }
    }
}

} // verus!
