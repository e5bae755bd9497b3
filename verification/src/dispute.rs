//! Disputes: the business or the investor of an invoice may open one
//! dispute on it, giving a reason and evidence of bounded length.
use vstd::prelude::*;

use crate::errors::QuickLendXError;
use crate::invoice_id::InvoiceId;
use crate::protocol_limits::{MAX_DISPUTE_EVIDENCE_LENGTH, MAX_DISPUTE_REASON_LENGTH};
use crate::Address;

verus! {

/// Where a dispute stands.
#[derive(Clone, Copy, Debug, PartialEq, Eq, Structural)]
pub enum DisputeStatus {
    Disputed,
    UnderReview,
    Resolved,
}

/// A dispute opened on an invoice.
#[derive(Clone, Debug)]
pub struct Dispute {
    pub invoice_id: InvoiceId,
    pub created_by: Address,
    pub reason: Vec<u8>,
    pub evidence: Vec<u8>,
    pub created_at: u64,
    pub status: DisputeStatus,
}

/// Why a dispute with `reason` and `evidence` is refused, if it is: both
/// must be non-empty and within their length limits.
pub open spec fn dispute_text_error(reason: Seq<u8>, evidence: Seq<u8>) -> Option<QuickLendXError> {
    if reason.len() == 0 || reason.len() > MAX_DISPUTE_REASON_LENGTH || evidence.len() == 0
        || evidence.len() > MAX_DISPUTE_EVIDENCE_LENGTH {
        Some(QuickLendXError::InvalidDescription)
    } else {
        None
    }
}

/// Checks the reason and evidence of a dispute: `InvalidDescription`
/// exactly when `dispute_text_error` names it.
pub fn validate_dispute_text(reason: &Vec<u8>, evidence: &Vec<u8>) -> (r: Result<(), QuickLendXError>)
    ensures
        r is Ok <==> dispute_text_error(reason@, evidence@) is None,
        dispute_text_error(reason@, evidence@) matches Some(e) ==> r == Err::<(), QuickLendXError>(e),
{
    if reason.len() == 0 || reason.len() > MAX_DISPUTE_REASON_LENGTH as usize || evidence.len() == 0
        || evidence.len() > MAX_DISPUTE_EVIDENCE_LENGTH as usize {
        return Err(QuickLendXError::InvalidDescription);
    }
    Ok(())
}

/// Whether some dispute of `d` concerns invoice `invoice_id`.
pub open spec fn has_dispute(d: Seq<Dispute>, invoice_id: InvoiceId) -> bool {
    exists|i: int| 0 <= i < d.len() && (#[trigger] d[i]).invoice_id == invoice_id
}

/// What opening a dispute on invoice `invoice_id` (of `business`, funded by
/// `investor` if any) does to the disputes `old_d`, leaving `new_d` and
/// answering `r`: `Unauthorized` unless `creator` is that business or
/// investor; then `OperationNotAllowed` when the invoice already has a
/// dispute; then as `dispute_text_error` says; otherwise the dispute is
/// added after the others.
pub open spec fn dispute_outcome(
    old_d: Seq<Dispute>,
    new_d: Seq<Dispute>,
    invoice_id: InvoiceId,
    business: Address,
    investor: Option<Address>,
    creator: Address,
    reason: Seq<u8>,
    evidence: Seq<u8>,
    now: u64,
    r: Result<(), QuickLendXError>,
) -> bool {
    let allowed = creator == business || investor == Some(creator);
    let text = dispute_text_error(reason, evidence);
    &&& !allowed ==> r == Err::<(), QuickLendXError>(QuickLendXError::Unauthorized)
    &&& allowed && has_dispute(old_d, invoice_id) ==> r == Err::<(), QuickLendXError>(
        QuickLendXError::OperationNotAllowed,
    )
    &&& allowed && !has_dispute(old_d, invoice_id) ==> (text matches Some(e) ==> r == Err::<
        (),
        QuickLendXError,
    >(e))
    &&& r is Ok <==> allowed && !has_dispute(old_d, invoice_id) && text is None
    &&& r is Err ==> new_d == old_d
    &&& r is Ok ==> {
        &&& new_d.drop_last() == old_d
        &&& new_d.len() == old_d.len() + 1
        &&& new_d.last().invoice_id == invoice_id
        &&& new_d.last().created_by == creator
        &&& new_d.last().reason@ == reason
        &&& new_d.last().evidence@ == evidence
        &&& new_d.last().created_at == now
        &&& new_d.last().status == DisputeStatus::Disputed
    }
}

/// The disputes, in the order they were opened.
pub struct DisputeRegistry {
    disputes: Vec<Dispute>,
}

impl DisputeRegistry {
    /// The disputes, in the order they were opened.
    pub closed spec fn records(&self) -> Seq<Dispute> {
        self.disputes@
    }

    /// Well-formedness: no invoice has two disputes.
    pub open spec fn wf(&self) -> bool {
        forall|i: int, j: int|
            0 <= i < self.records().len() && 0 <= j < self.records().len() && i != j
                ==> (#[trigger] self.records()[i]).invoice_id != (#[trigger] self.records()[j]).invoice_id
    }

    /// No disputes.
    pub fn new() -> (r: Self)
        ensures
            r.wf(),
            r.records() == Seq::<Dispute>::empty(),
    {
        DisputeRegistry { disputes: Vec::new() }
    }

    /// Position of the dispute of invoice `invoice_id`, if any.
    fn find(&self, invoice_id: InvoiceId) -> (r: Option<usize>)
        ensures
            r matches Some(i) ==> i < self.records().len() && self.records()[i as int].invoice_id
                == invoice_id,
            r is None <==> !has_dispute(self.records(), invoice_id),
    {
        let mut i: usize = 0;
        while i < self.disputes.len()
            invariant
                0 <= i <= self.disputes@.len(),
                forall|j: int| 0 <= j < i ==> (#[trigger] self.disputes@[j]).invoice_id != invoice_id,
            decreases self.disputes@.len() - i,
        {
            if self.disputes[i].invoice_id == invoice_id {
                return Some(i);
            }
            i = i + 1;
        }
        None
    }

    /// The dispute of invoice `invoice_id`, if any.
    pub fn get_dispute(&self, invoice_id: InvoiceId) -> (r: Option<&Dispute>)
        requires
            self.wf(),
        ensures
            r is None <==> !has_dispute(self.records(), invoice_id),
            r matches Some(d) ==> d.invoice_id == invoice_id && self.records().contains(*d),
    {
        match self.find(invoice_id) {
            Some(i) => Some(&self.disputes[i]),
            None => None,
        }
    }

    /// Opens a dispute on invoice `invoice_id` of `business`, funded by
    /// `investor` if any, as `dispute_outcome` says.
    pub fn create_dispute(
        &mut self,
        invoice_id: InvoiceId,
        business: Address,
        investor: Option<Address>,
        creator: Address,
        reason: Vec<u8>,
        evidence: Vec<u8>,
        now: u64,
    ) -> (r: Result<(), QuickLendXError>)
        requires
            old(self).wf(),
        ensures
            final(self).wf(),
            dispute_outcome(
                old(self).records(),
                final(self).records(),
                invoice_id,
                business,
                investor,
                creator,
                reason@,
                evidence@,
                now,
                r,
            ),
    {
        let allowed = creator == business || match investor {
            Some(i) => i == creator,
            None => false,
        };
        if !allowed {
            return Err(QuickLendXError::Unauthorized);
        }
        if self.find(invoice_id).is_some() {
            return Err(QuickLendXError::OperationNotAllowed);
        }
        validate_dispute_text(&reason, &evidence)?;
        let ghost old_d = self.disputes@;
        self.disputes.push(
            Dispute {
                invoice_id,
                created_by: creator,
                reason,
                evidence,
                created_at: now,
                status: DisputeStatus::Disputed,
            },
        );
        proof {
            let d = self.disputes@;
            assert(d.drop_last() =~= old_d);
            assert forall|a: int, b: int|
                0 <= a < d.len() && 0 <= b < d.len() && a != b implies (#[trigger] d[a]).invoice_id
                != (#[trigger] d[b]).invoice_id by {
                if a < old_d.len() {
                    assert(d[a] == old_d[a]);
                }
                if b < old_d.len() {
                    assert(d[b] == old_d[b]);
                }
            }
        }
        Ok(())
    }
}

} // verus!
