//! Error codes reported by the protocol.
use vstd::prelude::*;

verus! {

/// Errors reported by the protocol.
#[derive(Clone, Copy, Debug, PartialEq, Eq, Structural)]
pub enum QuickLendXError {
    BusinessNotVerified,
    InsufficientFunds,
    InvalidAddress,
    InvalidAmount,
    InvalidCoveragePercentage,
    InvalidCurrency,
    InvalidDescription,
    InvalidFeeBasisPoints,
    InvalidFeeConfiguration,
    InvalidRating,
    InvalidStatus,
    InvalidTag,
    InvalidTimestamp,
    InvestmentLimitExceeded,
    InvestorNotVerified,
    InvoiceAlreadyDefaulted,
    InvoiceDueDateInvalid,
    InvoiceNotFound,
    MaxInvoicesPerBusinessExceeded,
    NotAdmin,
    OperationNotAllowed,
    StorageKeyNotFound,
    TagLimitExceeded,
    Unauthorized,
}

} // verus!
