//! What holds of the ledger's operations taken together.
//!
//! The laws speak of the ledger as a map and of the operations as the
//! functions of [`crate::model`], which are what the contracts of
//! [`crate::bank::Bank`] state.

use crate::account::AccountId;
use crate::model::{
    after_deposits, balance_in, can_credit, committed, concluded, covers, deposited, finished,
    nested_debit_first, nested_debit_last, total, Deposit, Entries,
};
use vstd::prelude::*;

verus! {

/// Deposits add up: after a run of deposits, the balance of an account is
/// what it was before plus the sum of the amounts that the account
/// deposited, as long as that sum fits a balance.
pub proof fn lemma_deposits_add_up(entries: Entries, deposits: Seq<Deposit>, account: AccountId)
    requires
        balance_in(entries, account) + deposited(deposits, account) <= u128::MAX,
    ensures
        balance_in(after_deposits(entries, deposits), account) == balance_in(entries, account)
            + deposited(deposits, account),
    decreases deposits.len(),
{
    if deposits.len() > 0 {
        lemma_deposits_add_up(entries, deposits.drop_last(), account);
    }
}

/// On a ledger that started empty an account holds exactly the sum of its
/// deposits.
pub proof fn lemma_balance_is_sum_of_deposits(deposits: Seq<Deposit>, account: AccountId)
    requires
        deposited(deposits, account) <= u128::MAX,
    ensures
        balance_in(after_deposits(Entries::empty(), deposits), account) == deposited(
            deposits,
            account,
        ),
{
    lemma_deposits_add_up(Entries::empty(), deposits, account);
}

/// An account that made none of the deposits has a balance of zero on a
/// ledger that started empty.
pub proof fn lemma_no_deposit_no_balance(deposits: Seq<Deposit>, account: AccountId)
    requires
        forall|i: int| 0 <= i < deposits.len() ==> (#[trigger] deposits[i]).0 != account,
    ensures
        balance_in(after_deposits(Entries::empty(), deposits), account) == 0,
{
    lemma_nothing_deposited(deposits, account);
    lemma_deposits_add_up(Entries::empty(), deposits, account);
}

/// A ledger that started empty holds at most one entry per deposit made.
pub proof fn lemma_deposits_bound_entries(deposits: Seq<Deposit>)
    ensures
        after_deposits(Entries::empty(), deposits).dom().finite(),
        after_deposits(Entries::empty(), deposits).dom().len() <= deposits.len(),
    decreases deposits.len(),
{
    if deposits.len() > 0 {
        lemma_deposits_bound_entries(deposits.drop_last());
    }
}

/// Every deposit of a run can be made: on a ledger that started empty, the
/// deposit at position `n` finds room for its account and a balance that
/// takes the amount, provided the run has no more than `u32::MAX` deposits
/// and the account's deposits sum to a balance.
pub proof fn lemma_deposits_can_be_made(deposits: Seq<Deposit>, n: int)
    requires
        0 <= n < deposits.len(),
        deposits.len() <= u32::MAX,
        deposited(deposits, deposits[n].0) <= u128::MAX,
    ensures
        can_credit(
            after_deposits(Entries::empty(), deposits.take(n)),
            deposits[n].0,
            deposits[n].1,
        ),
{
    let account = deposits[n].0;
    let before = deposits.take(n);
    let with = deposits.take(n + 1);
    lemma_deposits_bound_entries(before);
    lemma_deposited_grows(deposits, n + 1, account);
    assert(with.drop_last() == before);
    assert(with.last() == deposits[n]);
    lemma_deposits_add_up(Entries::empty(), before, account);
}

/// A failed transfer leaves the ledger of a withdrawal that debits last as
/// it found it.
pub proof fn lemma_failed_transfer_writes_nothing(entries: Entries, to: AccountId, remaining: u128)
    ensures
        finished(entries, to, remaining, false) == entries,
{
}

/// A failed transfer restores the balance of a withdrawal that debits
/// first: once the debit is credited back, the account holds what it held
/// before the withdrawal, and so does every other account.
pub proof fn lemma_failed_transfer_restores_balance(
    entries: Entries,
    caller: AccountId,
    amount: u128,
    other: AccountId,
)
    requires
        covers(entries, caller, amount),
    ensures
        balance_in(concluded(committed(entries, caller, amount), caller, amount, false), other)
            == balance_in(entries, other),
{
}

/// Without re-entry the two orderings agree: if nothing touches the ledger
/// while the transfer is under way, debiting last and debiting first leave
/// every account with the same balance, whether the transfer succeeds or
/// fails.
pub proof fn lemma_orderings_agree_without_reentry(
    entries: Entries,
    caller: AccountId,
    amount: u128,
    transferred: bool,
    other: AccountId,
)
    requires
        covers(entries, caller, amount),
    ensures
        ({
            let remaining = (balance_in(entries, caller) - amount) as u128;
            let debit_last = finished(entries, caller, remaining, transferred);
            let debit_first = concluded(
                committed(entries, caller, amount),
                caller,
                amount,
                transferred,
            );
            balance_in(debit_last, other) == balance_in(debit_first, other)
        }),
{
}

/// Debit last, re-entered: while the transfer of `outer` is under way the
/// ledger is as the check found it, so a nested withdrawal of any `nested`
/// that the balance covers passes the same check. When both transfers have
/// succeeded the account has been paid `outer + nested`, and the ledger has
/// taken off `outer` alone.
pub proof fn lemma_debit_last_loses_nested_debit(
    entries: Entries,
    caller: AccountId,
    outer: u128,
    nested: u128,
)
    requires
        covers(entries, caller, outer),
        covers(entries, caller, nested),
    ensures
        ({
            let balance = balance_in(entries, caller);
            let after_nested = finished(entries, caller, (balance - nested) as u128, true);
            let after_outer = finished(after_nested, caller, (balance - outer) as u128, true);
            balance_in(after_outer, caller) == balance - outer
        }),
{
}

/// Debit first, re-entered: while the transfer of `outer` is under way the
/// ledger shows the balance less `outer`, so a nested withdrawal passes the
/// check exactly when both amounts together are covered by what the account
/// held. The two can never be paid more than that, and when both transfers
/// have succeeded the ledger has taken off both amounts.
pub proof fn lemma_debit_first_bounds_payout(
    entries: Entries,
    caller: AccountId,
    outer: u128,
    nested: u128,
)
    requires
        covers(entries, caller, outer),
    ensures
        covers(committed(entries, caller, outer), caller, nested) <==> outer + nested
            <= balance_in(entries, caller),
        covers(committed(entries, caller, outer), caller, nested) ==> ({
            let during = committed(entries, caller, outer);
            let after_nested = concluded(committed(during, caller, nested), caller, nested, true);
            let after_outer = concluded(after_nested, caller, outer, true);
            balance_in(after_outer, caller) == balance_in(entries, caller) - outer - nested
        }),
{
}

/// Debit last, re-entered to any depth: if the balance that the outermost
/// check found covers each amount by itself, every one of them is paid,
/// however many there are, and the ledger ends with the outermost debit
/// alone.
pub proof fn lemma_debit_last_pays_every_nested_amount(
    entries: Entries,
    caller: AccountId,
    amounts: Seq<u128>,
)
    requires
        forall|i: int| 0 <= i < amounts.len() ==> covers(entries, caller, #[trigger] amounts[i]),
    ensures
        nested_debit_last(entries, caller, amounts).paid == total(amounts),
        amounts.len() > 0 ==> balance_in(nested_debit_last(entries, caller, amounts).entries, caller)
            == balance_in(entries, caller) - amounts.first(),
        entries.contains_key(caller) ==> nested_debit_last(
            entries,
            caller,
            amounts,
        ).entries.contains_key(caller),
    decreases amounts.len(),
{
    if amounts.len() > 0 {
        let rest = amounts.drop_first();
        assert forall|i: int| 0 <= i < rest.len() implies covers(
            entries,
            caller,
            #[trigger] rest[i],
        ) by {
            assert(rest[i] == amounts[i + 1]);
        }
        lemma_debit_last_pays_every_nested_amount(entries, caller, rest);
    }
}

/// Debit last, re-entered once with the whole balance: an account that
/// holds anything is paid twice what it held, and the ledger ends at zero.
pub proof fn lemma_debit_last_pays_twice(entries: Entries, caller: AccountId)
    requires
        balance_in(entries, caller) > 0,
    ensures
        ({
            let balance = balance_in(entries, caller);
            let run = nested_debit_last(entries, caller, seq![balance, balance]);
            &&& run.paid == 2 * balance
            &&& run.paid > balance
            &&& balance_in(run.entries, caller) == 0
        }),
{
    let balance = balance_in(entries, caller);
    let amounts = seq![balance, balance];
    lemma_debit_last_pays_every_nested_amount(entries, caller, amounts);
    assert(total(amounts) == 2 * balance) by {
        assert(amounts.drop_first() == seq![balance]);
        assert(amounts.drop_first().drop_first() == Seq::<u128>::empty());
        reveal_with_fuel(total, 3);
    }
}

/// Debit first, re-entered to any depth: what has been paid out and what
/// the ledger still records for the account add up to the balance before
/// the outermost withdrawal. The account is never paid more than it held.
pub proof fn lemma_debit_first_never_overpays(
    entries: Entries,
    caller: AccountId,
    amounts: Seq<u128>,
)
    ensures
        nested_debit_first(entries, caller, amounts).paid + balance_in(
            nested_debit_first(entries, caller, amounts).entries,
            caller,
        ) == balance_in(entries, caller),
        nested_debit_first(entries, caller, amounts).paid <= balance_in(entries, caller),
    decreases amounts.len(),
{
    if amounts.len() > 0 && covers(entries, caller, amounts.first()) {
        lemma_debit_first_never_overpays(
            committed(entries, caller, amounts.first()),
            caller,
            amounts.drop_first(),
        );
    }
}

/// Debit first, re-entered once with the whole balance: the nested
/// withdrawal finds nothing left, and the account is paid what it held and
/// no more.
pub proof fn lemma_debit_first_pays_once(entries: Entries, caller: AccountId)
    requires
        balance_in(entries, caller) > 0,
    ensures
        ({
            let balance = balance_in(entries, caller);
            let run = nested_debit_first(entries, caller, seq![balance, balance]);
            &&& !covers(committed(entries, caller, balance), caller, balance)
            &&& run.paid == balance
            &&& balance_in(run.entries, caller) == 0
        }),
{
    let balance = balance_in(entries, caller);
    let amounts = seq![balance, balance];
    assert(amounts.drop_first() == seq![balance]);
    lemma_debit_first_never_overpays(entries, caller, amounts);
    reveal_with_fuel(nested_debit_first, 3);
}

/// The deposits of an account that made none sum to zero.
proof fn lemma_nothing_deposited(deposits: Seq<Deposit>, account: AccountId)
    requires
        forall|i: int| 0 <= i < deposits.len() ==> (#[trigger] deposits[i]).0 != account,
    ensures
        deposited(deposits, account) == 0,
    decreases deposits.len(),
{
    if deposits.len() > 0 {
        lemma_nothing_deposited(deposits.drop_last(), account);
    }
}

/// The sum of an account's deposits does not shrink as deposits follow.
proof fn lemma_deposited_grows(deposits: Seq<Deposit>, n: int, account: AccountId)
    requires
        0 <= n <= deposits.len(),
    ensures
        deposited(deposits.take(n), account) <= deposited(deposits, account),
    decreases deposits.len(),
{
    if n == deposits.len() {
        assert(deposits.take(n) == deposits);
    } else {
        lemma_deposited_grows(deposits.drop_last(), n, account);
        assert(deposits.drop_last().take(n) == deposits.take(n));
    }
}

} // verus!
