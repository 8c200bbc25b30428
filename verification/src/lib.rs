//! A bank ledger that shows how a withdrawal can be re-entered.
//!
//! [`Bank`] keeps one balance per account. Paying out is the work of the
//! host that runs the bank and is reached through [`TransferHost`]; while a
//! transfer is under way the host may hand control to the recipient, who may
//! call back into the same bank.
//!
//! - [`Bank::withdraw`] checks the balance, transfers, and debits last. A
//!   nested withdrawal made during the transfer meets the balance of the
//!   check and is paid as well.
//! - [`Bank::withdraw_committed`] debits first and credits the amount back
//!   if the transfer fails. A nested withdrawal meets the balance already
//!   debited.
//!
//! Both are made of two steps, one on each side of the transfer, which can
//! be called by a host that runs the transfer itself: [`Bank::begin_withdraw`]
//! and [`Bank::finish_withdraw`], [`Bank::commit_withdraw`] and
//! [`Bank::conclude_withdraw`].
//!
//! The modules: [`account`] names accounts, [`storage`] is the map that
//! holds the balances and what is assumed of it, [`model`] says what each
//! operation does to the ledger as a mathematical map, [`bank`] holds the
//! operations, [`host`] the host's side, and [`laws`] what is proved of the
//! operations taken together.

pub mod account;
pub mod bank;
pub mod host;
pub mod laws;
pub mod model;
pub mod storage;

pub use account::AccountId;
pub use bank::{Bank, Debit, Withdrawal};
pub use host::TransferHost;
