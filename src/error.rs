use vstd::prelude::*;

verus! {

/// Why a ledger or contract operation was refused.
#[derive(Debug, Clone, Copy, PartialEq, Eq, Structural)]
pub enum FtError {
    /// Sender and receiver of a transfer are the same account.
    SameAccount,
    /// A transfer of zero tokens was requested.
    ZeroAmount,
    /// The account has no ledger entry.
    NotRegistered,
    /// The account holds less than the amount to debit.
    InsufficientBalance,
    /// A balance or the total supply would exceed `u128::MAX`.
    Overflow,
    /// The caller is not the owner.
    Unauthorized,
    /// The account still holds tokens and removal was not forced.
    PositiveBalance,
    /// The attached gas cannot pay for the notification and its resolution.
    InsufficientGas,
    /// The token metadata is malformed.
    InvalidMetadata,
    /// The owner's ledger entry cannot be removed.
    OwnerAccount,
}

} // verus!
