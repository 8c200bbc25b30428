//! Account identities.

use vstd::prelude::*;

verus! {

/// The identity of a caller: 32 opaque bytes, as the host hands them over.
///
/// Two identities are the same account exactly when their bytes agree.
#[derive(Clone, Copy, Debug, PartialEq, Eq, Hash)]
pub struct AccountId {
    pub bytes: [u8; 32],
}

impl AccountId {
    /// The account whose identity is `bytes`.
    pub fn new(bytes: [u8; 32]) -> (account: AccountId)
        ensures
            account.bytes == bytes,
    {
        AccountId { bytes }
    }
}

} // verus!
