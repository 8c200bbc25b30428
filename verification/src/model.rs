//! The ledger as a mathematical map, and what each operation does to it.

use crate::account::AccountId;
use vstd::prelude::*;

verus! {

/// The entries of a ledger: each account that has one, with its balance.
pub type Entries = Map<AccountId, u128>;

/// The balance that `entries` records for `account`: zero without an entry.
pub open spec fn balance_in(entries: Entries, account: AccountId) -> u128 {
    if entries.contains_key(account) {
        entries[account]
    } else {
        0
    }
}

/// Whether `entries` can take a balance for `account`: the account has an
/// entry already, or the ledger holds fewer than `u32::MAX` entries.
pub open spec fn has_room(entries: Entries, account: AccountId) -> bool {
    entries.contains_key(account) || entries.dom().len() < u32::MAX
}

/// `entries` with `balance` written for `account`. A ledger without room for
/// the account stays as it is.
pub open spec fn recorded(entries: Entries, account: AccountId, balance: u128) -> Entries {
    if has_room(entries, account) {
        entries.insert(account, balance)
    } else {
        entries
    }
}

/// Whether `amount` can be added to the balance of `account`: the ledger has
/// room for the account and the sum fits a balance.
pub open spec fn can_credit(entries: Entries, account: AccountId, amount: u128) -> bool {
    has_room(entries, account) && balance_in(entries, account) + amount <= u128::MAX
}

/// `entries` after `amount` was added to the balance of `account`.
pub open spec fn credited(entries: Entries, account: AccountId, amount: u128) -> Entries {
    entries.insert(account, (balance_in(entries, account) + amount) as u128)
}

/// `entries` after a credit that is made only where it can be made.
pub open spec fn credited_if_possible(entries: Entries, account: AccountId, amount: u128) -> Entries {
    if can_credit(entries, account, amount) {
        credited(entries, account, amount)
    } else {
        entries
    }
}

/// One deposit: the account that makes it and the amount.
pub type Deposit = (AccountId, u128);

/// `entries` after the deposits of `deposits` were credited in order.
pub open spec fn after_deposits(entries: Entries, deposits: Seq<Deposit>) -> Entries
    decreases deposits.len(),
{
    if deposits.len() == 0 {
        entries
    } else {
        credited(
            after_deposits(entries, deposits.drop_last()),
            deposits.last().0,
            deposits.last().1,
        )
    }
}

/// The sum of the amounts that `account` deposited in `deposits`.
pub open spec fn deposited(deposits: Seq<Deposit>, account: AccountId) -> nat
    decreases deposits.len(),
{
    if deposits.len() == 0 {
        0
    } else if deposits.last().0 == account {
        deposited(deposits.drop_last(), account) + deposits.last().1 as nat
    } else {
        deposited(deposits.drop_last(), account)
    }
}

/// Whether the balance of `account` covers `amount`.
pub open spec fn covers(entries: Entries, account: AccountId, amount: u128) -> bool {
    amount <= balance_in(entries, account)
}

/// `entries` after a withdrawal that debits last has ended: where the
/// transfer succeeded, the balance that was computed at the check is
/// written; where it failed, nothing is.
pub open spec fn finished(entries: Entries, to: AccountId, remaining: u128, transferred: bool) -> Entries {
    if transferred {
        recorded(entries, to, remaining)
    } else {
        entries
    }
}

/// `entries` after `amount` was debited from `account` ahead of the
/// transfer.
pub open spec fn committed(entries: Entries, account: AccountId, amount: u128) -> Entries {
    recorded(entries, account, (balance_in(entries, account) - amount) as u128)
}

/// `entries` after the first half of a withdrawal that debits first: the
/// amount is taken off where the balance covers it.
pub open spec fn committed_if_covered(entries: Entries, account: AccountId, amount: u128) -> Entries {
    if covers(entries, account, amount) {
        committed(entries, account, amount)
    } else {
        entries
    }
}

/// `entries` after a withdrawal that debits first has ended: where the
/// transfer failed, the amount is credited back.
pub open spec fn concluded(entries: Entries, to: AccountId, amount: u128, transferred: bool) -> Entries {
    if transferred {
        entries
    } else {
        credited_if_possible(entries, to, amount)
    }
}

/// Where a withdrawal has left things: the ledger, and what the host has
/// paid out on the way.
pub struct Outcome {
    pub entries: Entries,
    pub paid: nat,
}

/// The sum of `amounts`.
pub open spec fn total(amounts: Seq<u128>) -> nat
    decreases amounts.len(),
{
    if amounts.len() == 0 {
        0
    } else {
        amounts.first() as nat + total(amounts.drop_first())
    }
}

/// A withdrawal of the first of `amounts` that debits last, on a host whose
/// transfers all succeed and whose recipient, before a transfer returns,
/// withdraws the next of `amounts` in the same way, down to the end of the
/// list or to the first amount that the balance does not cover.
///
/// Each nested withdrawal meets the ledger as the outermost check found it,
/// since no debit has been written yet.
pub open spec fn nested_debit_last(entries: Entries, caller: AccountId, amounts: Seq<u128>) -> Outcome
    decreases amounts.len(),
{
    if amounts.len() == 0 || !covers(entries, caller, amounts.first()) {
        Outcome { entries, paid: 0 }
    } else {
        let during = nested_debit_last(entries, caller, amounts.drop_first());
        let remaining = (balance_in(entries, caller) - amounts.first()) as u128;
        Outcome {
            entries: finished(during.entries, caller, remaining, true),
            paid: amounts.first() as nat + during.paid,
        }
    }
}

/// The same run of nested withdrawals with the debit ahead of each
/// transfer: each nested withdrawal meets the ledger with the debits of all
/// the withdrawals around it written.
pub open spec fn nested_debit_first(entries: Entries, caller: AccountId, amounts: Seq<u128>) -> Outcome
    decreases amounts.len(),
{
    if amounts.len() == 0 || !covers(entries, caller, amounts.first()) {
        Outcome { entries, paid: 0 }
    } else {
        let debited = committed(entries, caller, amounts.first());
        let during = nested_debit_first(debited, caller, amounts.drop_first());
        Outcome {
            entries: concluded(during.entries, caller, amounts.first(), true),
            paid: amounts.first() as nat + during.paid,
        }
    }
}

} // verus!
