//! Core rules of the QuickLendX invoice-financing protocol: fee schedules and
//! revenue splits, investment lifecycle and insurance, invoice bookkeeping,
//! protocol limits and query pagination, stated and proved with Verus.
use vstd::prelude::*;

pub mod bid;
pub mod defaults;
pub mod dispute;
pub mod errors;
pub mod fees;
pub mod init;
pub mod math;
pub mod investment;
pub mod kyc;
pub mod investment_storage;
pub mod invoice_id;
pub mod marketplace;
pub mod invoice;
pub mod pagination;
pub mod payments;
pub mod protocol_limits;

verus! {

/// Accounts are identified by an opaque numeric handle.
pub type Address = u64;

} // verus!
