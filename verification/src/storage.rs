//! The storage hash map that holds the balances, and what is taken on trust
//! about it.
//!
//! Nothing in this module is proved. Each function below makes one call into
//! `ink_storage::collections::HashMap` and states what that call does to the
//! map's contents; the bank is verified against these statements.

use crate::account::AccountId;
use crate::model::Entries;
use vstd::prelude::*;

verus! {

/// The map from account to balance: an `ink_storage::collections::HashMap`
/// from `ink_env::AccountId` to `u128` that is created empty and lives in
/// memory; it is never pulled from contract storage.
///
/// The map is opaque here. What it holds goes by the name [`entries`].
#[verifier::external_body]
pub struct BalanceMap {
    map: ink_storage::collections::HashMap<ink_env::AccountId, u128>,
}

/// What a balance map holds: the balance stored under each account that has
/// an entry. An account stands for the map's key with the same 32 bytes, so
/// two accounts share an entry exactly when their bytes agree.
pub uninterp spec fn entries(map: BalanceMap) -> Entries;

/// `HashMap::new`: the new map holds no entry.
#[verifier::external_body]
pub(crate) fn empty_map() -> (fresh: BalanceMap)
    ensures
        entries(fresh) == Entries::empty(),
{
    BalanceMap { map: ink_storage::collections::HashMap::new() }
}

/// `HashMap::get`: the balance stored under `account`, or `None` where the
/// account has no entry. The map's contents stay as they are.
#[verifier::external_body]
pub(crate) fn lookup(map: &BalanceMap, account: &AccountId) -> (found: Option<u128>)
    ensures
        found == (if entries(*map).contains_key(*account) {
            Some(entries(*map)[*account])
        } else {
            None::<u128>
        }),
{
    map.map.get(&ink_env::AccountId::from(account.bytes)).copied()
}

/// `HashMap::len`: the number of entries that the map holds.
#[verifier::external_body]
pub(crate) fn count(map: &BalanceMap) -> (n: u32)
    ensures
        n == entries(*map).dom().len(),
{
    map.map.len()
}

/// `HashMap::insert`: stores `balance` under `account` and returns the
/// balance that was stored there before, if any. An entry of the same
/// account is replaced; every other entry stays.
///
/// For an account without an entry the map adds one to its key count, a
/// `u32`, and would overflow it at `u32::MAX` keys: the precondition leaves
/// that case out.
#[verifier::external_body]
pub(crate) fn store(map: &mut BalanceMap, account: AccountId, balance: u128) -> (previous: Option<
    u128,
>)
    requires
        entries(*old(map)).contains_key(account) || entries(*old(map)).dom().len() < u32::MAX,
    ensures
        entries(*final(map)) == entries(*old(map)).insert(account, balance),
        previous == (if entries(*old(map)).contains_key(account) {
            Some(entries(*old(map))[account])
        } else {
            None::<u128>
        }),
{
    map.map.insert(ink_env::AccountId::from(account.bytes), balance)
}

} // verus!
