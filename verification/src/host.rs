//! The host's side of a withdrawal.

use crate::account::AccountId;
use crate::bank::Bank;
use vstd::prelude::*;

verus! {

/// The transfer primitive of the host that runs the bank.
///
/// A transfer hands control to the recipient before it returns, and the
/// recipient may call back into the bank that is paying it. The bank is
/// therefore passed along, and nothing is promised about the state in which
/// it comes back.
pub trait TransferHost {
    /// Moves `amount` to `to` and reports whether the funds moved. A failed
    /// transfer moves nothing.
    fn transfer(&mut self, bank: &mut Bank, to: AccountId, amount: u128) -> (moved: bool);
}

} // verus!
