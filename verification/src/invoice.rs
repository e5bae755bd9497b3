//! Invoices: status lifecycle, per-status bookkeeping, normalized tags and
//! the cap on active invoices per business.
use vstd::prelude::*;

use crate::errors::QuickLendXError;
use crate::protocol_limits::{
    bytes_equal, invoice_params_error, normalize_tag, normalized_tag, tag_valid, tag_views,
    validate_invoice_params, validate_tag, check_string_length, ProtocolLimits,
    MAX_ADDRESS_LENGTH, MAX_FEEDBACK_LENGTH, MAX_NAME_LENGTH, MAX_NOTES_LENGTH, MAX_TAGS_PER_INVOICE, MAX_TAX_ID_LENGTH,
};
use crate::invoice_id::{id_counter, id_layout, lemma_id_round_trip, InvoiceId, InvoiceIdAllocator};
use crate::Address;

verus! {

/// Lifecycle status of an invoice.
#[derive(Clone, Copy, Debug, PartialEq, Eq, Structural)]
pub enum InvoiceStatus {
    Pending,
    Verified,
    Funded,
    Paid,
    Defaulted,
    Cancelled,
    Refunded,
}

/// Business category of an invoice.
#[derive(Clone, Copy, Debug, PartialEq, Eq, Structural)]
pub enum InvoiceCategory {
    Services,
    Products,
    Consulting,
    Manufacturing,
    Technology,
    Healthcare,
    Other,
}

/// The moves an invoice may make: a pending invoice is verified or
/// cancelled, a verified one funded or cancelled, a funded one paid,
/// defaulted, refunded or cancelled. Paid, defaulted, cancelled and
/// refunded invoices never move again.
pub open spec fn invoice_transition_allowed(from: InvoiceStatus, to: InvoiceStatus) -> bool {
    match from {
        InvoiceStatus::Pending => to == InvoiceStatus::Verified || to == InvoiceStatus::Cancelled,
        InvoiceStatus::Verified => to == InvoiceStatus::Funded || to == InvoiceStatus::Cancelled,
        InvoiceStatus::Funded => to == InvoiceStatus::Paid || to == InvoiceStatus::Defaulted || to
            == InvoiceStatus::Refunded || to == InvoiceStatus::Cancelled,
        _ => false,
    }
}

/// Whether an invoice in status `s` counts toward its business's cap on
/// active invoices (every status but cancelled and paid).
pub open spec fn counts_toward_cap(s: InvoiceStatus) -> bool {
    s != InvoiceStatus::Cancelled && s != InvoiceStatus::Paid
}

impl InvoiceStatus {
    /// Whether the status is terminal: no move leaves it.
    pub fn is_terminal(&self) -> (r: bool)
        ensures
            r <==> forall|to: InvoiceStatus| !invoice_transition_allowed(*self, to),
    {
        let r = match self {
            InvoiceStatus::Pending | InvoiceStatus::Verified | InvoiceStatus::Funded => false,
            _ => true,
        };
        proof {
            if !r {
                match *self {
                    InvoiceStatus::Pending => assert(invoice_transition_allowed(
                        *self,
                        InvoiceStatus::Verified,
                    )),
                    InvoiceStatus::Verified => assert(invoice_transition_allowed(
                        *self,
                        InvoiceStatus::Funded,
                    )),
                    _ => assert(invoice_transition_allowed(*self, InvoiceStatus::Paid)),
                }
            }
        }
        r
    }

    /// Checks that an invoice may move from `from` to `to`;
    /// `InvalidStatus` when it may not.
    pub fn validate_transition(from: &InvoiceStatus, to: &InvoiceStatus) -> (r: Result<
        (),
        QuickLendXError,
    >)
        ensures
            r is Ok <==> invoice_transition_allowed(*from, *to),
            r is Err ==> r == Err::<(), QuickLendXError>(QuickLendXError::InvalidStatus),
    {
        match (from, to) {
            (InvoiceStatus::Pending, InvoiceStatus::Verified)
            | (InvoiceStatus::Pending, InvoiceStatus::Cancelled)
            | (InvoiceStatus::Verified, InvoiceStatus::Funded)
            | (InvoiceStatus::Verified, InvoiceStatus::Cancelled)
            | (InvoiceStatus::Funded, InvoiceStatus::Paid)
            | (InvoiceStatus::Funded, InvoiceStatus::Defaulted)
            | (InvoiceStatus::Funded, InvoiceStatus::Refunded)
            | (InvoiceStatus::Funded, InvoiceStatus::Cancelled) => Ok(()),
            _ => Err(QuickLendXError::InvalidStatus),
        }
    }
}

/// An invoice uploaded by a business.
#[derive(Clone, Debug)]
pub struct Invoice {
    pub id: InvoiceId,
    pub business: Address,
    pub amount: i128,
    pub currency: Address,
    pub due_date: u64,
    pub created_at: u64,
    pub description: Vec<u8>,
    pub category: InvoiceCategory,
    pub tags: Vec<Vec<u8>>,
    pub status: InvoiceStatus,
    pub metadata_customer_name: Option<Vec<u8>>,
    pub metadata_customer_address: Option<Vec<u8>>,
    pub metadata_tax_id: Option<Vec<u8>>,
    pub metadata_notes: Option<Vec<u8>>,
    pub metadata_line_items: Vec<LineItemRecord>,
    pub ratings: Vec<InvoiceRating>,
}

/// A rating of an invoice: a score, feedback, who gave it and when.
#[derive(Clone, Debug)]
pub struct InvoiceRating {
    pub rating: u32,
    pub feedback: Vec<u8>,
    pub rated_by: Address,
    pub rated_at: u64,
}

/// Lowest score a rating may give.
pub const MIN_RATING: u32 = 1;

/// Highest score a rating may give.
pub const MAX_RATING: u32 = 5;

/// Sum of the scores of `s`.
pub open spec fn rating_sum(s: Seq<InvoiceRating>) -> nat
    decreases s.len(),
{
    if s.len() == 0 {
        0
    } else {
        rating_sum(s.drop_last()) + (s.last().rating as nat)
    }
}

/// Highest score of `s`, if any.
pub open spec fn highest_rating(s: Seq<InvoiceRating>) -> Option<u32>
    decreases s.len(),
{
    if s.len() == 0 {
        None
    } else {
        match highest_rating(s.drop_last()) {
            Some(h) => Some(if s.last().rating > h { s.last().rating } else { h }),
            None => Some(s.last().rating),
        }
    }
}

/// Lowest score of `s`, if any.
pub open spec fn lowest_rating(s: Seq<InvoiceRating>) -> Option<u32>
    decreases s.len(),
{
    if s.len() == 0 {
        None
    } else {
        match lowest_rating(s.drop_last()) {
            Some(l) => Some(if s.last().rating < l { s.last().rating } else { l }),
            None => Some(s.last().rating),
        }
    }
}

/// Average score of `s`, rounded down, if it has any.
pub open spec fn average_rating_of(s: Seq<InvoiceRating>) -> Option<u32> {
    if s.len() == 0 {
        None
    } else {
        Some((rating_sum(s) / s.len()) as u32)
    }
}

/// Why a rating of `rating` with `feedback` is refused on an invoice in
/// status `status`, if it is: an invoice that is neither funded nor paid,
/// then a score outside `MIN_RATING..=MAX_RATING`, then feedback longer
/// than `MAX_FEEDBACK_LENGTH`.
pub open spec fn rating_error(status: InvoiceStatus, rating: u32, feedback: Seq<u8>) -> Option<
    QuickLendXError,
> {
    if status != InvoiceStatus::Funded && status != InvoiceStatus::Paid {
        Some(QuickLendXError::InvalidStatus)
    } else if rating < MIN_RATING || rating > MAX_RATING {
        Some(QuickLendXError::InvalidRating)
    } else if feedback.len() > MAX_FEEDBACK_LENGTH {
        Some(QuickLendXError::InvalidDescription)
    } else {
        None
    }
}

/// A line of an invoice: description, quantity, unit price and total.
#[derive(Clone, Debug)]
pub struct LineItemRecord(pub Vec<u8>, pub i128, pub i128, pub i128);

/// Details of the customer an invoice bills.
#[derive(Clone, Debug)]
pub struct InvoiceMetadata {
    pub customer_name: Vec<u8>,
    pub customer_address: Vec<u8>,
    pub tax_id: Vec<u8>,
    pub line_items: Vec<LineItemRecord>,
    pub notes: Vec<u8>,
}

/// Why metadata `m` is refused, if it is: a customer name that is empty or
/// longer than `MAX_NAME_LENGTH` bytes, or an address, tax identifier or
/// notes longer than their limits.
pub open spec fn metadata_error(m: InvoiceMetadata) -> Option<QuickLendXError> {
    if m.customer_name@.len() == 0 || m.customer_name@.len() > MAX_NAME_LENGTH
        || m.customer_address@.len() > MAX_ADDRESS_LENGTH || m.tax_id@.len() > MAX_TAX_ID_LENGTH
        || m.notes@.len() > MAX_NOTES_LENGTH {
        Some(QuickLendXError::InvalidDescription)
    } else {
        None
    }
}

/// Invoice `inv` carrying metadata `m`.
pub open spec fn with_metadata(inv: Invoice, m: InvoiceMetadata) -> Invoice {
    Invoice {
        metadata_customer_name: Some(m.customer_name),
        metadata_customer_address: Some(m.customer_address),
        metadata_tax_id: Some(m.tax_id),
        metadata_notes: Some(m.notes),
        metadata_line_items: m.line_items,
        ..inv
    }
}

/// Whether `b` is `a` with its metadata cleared.
pub open spec fn metadata_cleared_from(a: Invoice, b: Invoice) -> bool {
    &&& b.metadata_customer_name is None
    &&& b.metadata_customer_address is None
    &&& b.metadata_tax_id is None
    &&& b.metadata_notes is None
    &&& b.metadata_line_items@.len() == 0
    &&& b.id == a.id
    &&& b.business == a.business
    &&& b.amount == a.amount
    &&& b.currency == a.currency
    &&& b.due_date == a.due_date
    &&& b.created_at == a.created_at
    &&& b.description == a.description
    &&& b.category == a.category
    &&& b.tags == a.tags
    &&& b.status == a.status
    &&& b.ratings == a.ratings
}

/// The customer name invoice `inv` carries, if any.
pub open spec fn customer_of(inv: Invoice) -> Option<Seq<u8>> {
    match inv.metadata_customer_name {
        Some(n) => Some(n@),
        None => None,
    }
}

/// The tax identifier invoice `inv` carries, if any.
pub open spec fn tax_id_of(inv: Invoice) -> Option<Seq<u8>> {
    match inv.metadata_tax_id {
        Some(t) => Some(t@),
        None => None,
    }
}

/// Checks metadata `m`: `InvalidDescription` exactly when `metadata_error`
/// names it.
pub fn validate_metadata(m: &InvoiceMetadata) -> (r: Result<(), QuickLendXError>)
    ensures
        r is Ok <==> metadata_error(*m) is None,
        metadata_error(*m) matches Some(e) ==> r == Err::<(), QuickLendXError>(e),
{
    if m.customer_name.len() == 0 {
        return Err(QuickLendXError::InvalidDescription);
    }
    check_string_length(m.customer_name.as_slice(), MAX_NAME_LENGTH)?;
    check_string_length(m.customer_address.as_slice(), MAX_ADDRESS_LENGTH)?;
    check_string_length(m.tax_id.as_slice(), MAX_TAX_ID_LENGTH)?;
    check_string_length(m.notes.as_slice(), MAX_NOTES_LENGTH)?;
    Ok(())
}

impl Invoice {
    /// Last instant of the grace period of `grace_period` seconds after the
    /// due date, saturated at `u64::MAX`.
    pub fn grace_deadline(&self, grace_period: u64) -> (r: u64)
        ensures
            r == if self.due_date + grace_period > u64::MAX {
                u64::MAX as int
            } else {
                self.due_date + grace_period
            },
    {
        self.due_date.saturating_add(grace_period)
    }

    /// Replaces the metadata of the invoice with `metadata`. Only the
    /// invoice's business may: `Unauthorized` for anyone else; then
    /// `InvalidDescription` as `metadata_error` says. Nothing changes on
    /// failure.
    pub fn update_metadata(&mut self, caller: Address, metadata: InvoiceMetadata) -> (r: Result<
        (),
        QuickLendXError,
    >)
        ensures
            caller != old(self).business ==> r == Err::<(), QuickLendXError>(
                QuickLendXError::Unauthorized,
            ),
            caller == old(self).business ==> (metadata_error(metadata) matches Some(e) ==> r
                == Err::<(), QuickLendXError>(e)),
            r is Ok <==> caller == old(self).business && metadata_error(metadata) is None,
            r is Err ==> *final(self) == *old(self),
            r is Ok ==> *final(self) == with_metadata(*old(self), metadata),
    {
        if caller != self.business {
            return Err(QuickLendXError::Unauthorized);
        }
        validate_metadata(&metadata)?;
        self.metadata_customer_name = Some(metadata.customer_name);
        self.metadata_customer_address = Some(metadata.customer_address);
        self.metadata_tax_id = Some(metadata.tax_id);
        self.metadata_notes = Some(metadata.notes);
        self.metadata_line_items = metadata.line_items;
        Ok(())
    }

    /// Removes the metadata of the invoice. Only the invoice's business
    /// may: `Unauthorized`, changing nothing, for anyone else.
    pub fn clear_metadata(&mut self, caller: Address) -> (r: Result<(), QuickLendXError>)
        ensures
            r is Ok <==> caller == old(self).business,
            r is Err ==> r == Err::<(), QuickLendXError>(QuickLendXError::Unauthorized)
                && *final(self) == *old(self),
            r is Ok ==> metadata_cleared_from(*old(self), *final(self)),
    {
        if caller != self.business {
            return Err(QuickLendXError::Unauthorized);
        }
        self.metadata_customer_name = None;
        self.metadata_customer_address = None;
        self.metadata_tax_id = None;
        self.metadata_notes = None;
        self.metadata_line_items = Vec::new();
        Ok(())
    }

    /// Whether `now` lies strictly after the due date.
    pub fn is_overdue(&self, now: u64) -> (r: bool)
        ensures
            r == (now > self.due_date),
    {
        now > self.due_date
    }

    /// Records a rating of `rating` with `feedback` by `rater` at `now`:
    /// fails, changing nothing, as `rating_error` says; otherwise the
    /// rating is added after the others and nothing else changes.
    pub fn add_rating(&mut self, rating: u32, feedback: Vec<u8>, rater: Address, now: u64) -> (r:
        Result<(), QuickLendXError>)
        ensures
            rating_error(old(self).status, rating, feedback@) matches Some(e) ==> r == Err::<
                (),
                QuickLendXError,
            >(e),
            r is Ok <==> rating_error(old(self).status, rating, feedback@) is None,
            r is Err ==> *final(self) == *old(self),
            r is Ok ==> *final(self) == (Invoice { ratings: final(self).ratings, ..*old(self) }),
            r is Ok ==> final(self).ratings@.drop_last() == old(self).ratings@ && final(self).ratings@.len() == old(self).ratings@.len() + 1,
            r is Ok ==> ({
                let x = final(self).ratings@.last();
                &&& x.rating == rating
                &&& x.feedback@ == feedback@
                &&& x.rated_by == rater
                &&& x.rated_at == now
            }),
    {
        if self.status != InvoiceStatus::Funded && self.status != InvoiceStatus::Paid {
            return Err(QuickLendXError::InvalidStatus);
        }
        if rating < MIN_RATING || rating > MAX_RATING {
            return Err(QuickLendXError::InvalidRating);
        }
        check_string_length(feedback.as_slice(), MAX_FEEDBACK_LENGTH)?;
        let ghost old_r = self.ratings@;
        self.ratings.push(InvoiceRating { rating, feedback, rated_by: rater, rated_at: now });
        proof {
            assert(self.ratings@.drop_last() =~= old_r);
        }
        Ok(())
    }

    /// Number of ratings.
    pub fn total_ratings(&self) -> (r: usize)
        ensures
            r == self.ratings@.len(),
    {
        self.ratings.len()
    }

    /// Average score, rounded down, if the invoice has been rated.
    pub fn average_rating(&self) -> (r: Option<u32>)
        ensures
            r == average_rating_of(self.ratings@),
    {
        let n = self.ratings.len();
        if n == 0 {
            return None;
        }
        let mut sum: u128 = 0;
        let mut i: usize = 0;
        while i < n
            invariant
                n == self.ratings@.len(),
                0 <= i <= n,
                sum == rating_sum(self.ratings@.take(i as int)),
                sum <= i * (u32::MAX as nat),
            decreases n - i,
        {
            proof {
                assert(self.ratings@.take(i + 1).drop_last() =~= self.ratings@.take(i as int));
                assert(i * (u32::MAX as nat) + u32::MAX as nat == (i + 1) * (u32::MAX as nat))
                    by (nonlinear_arith);
                assert((i + 1) * (u32::MAX as nat) <= usize::MAX * (u32::MAX as nat))
                    by (nonlinear_arith) requires i + 1 <= usize::MAX;
                assert(usize::MAX * (u32::MAX as nat) < u128::MAX) by (nonlinear_arith)
                    requires usize::MAX <= u64::MAX;
            }
            sum = sum + self.ratings[i].rating as u128;
            i = i + 1;
        }
        proof {
            assert(self.ratings@.take(n as int) =~= self.ratings@);
            assert((sum as nat) / (n as nat) <= u32::MAX as nat) by (nonlinear_arith)
                requires
                    sum <= n * (u32::MAX as nat),
                    n > 0,
            ;
        }
        Some((sum / n as u128) as u32)
    }

    /// Highest score, if the invoice has been rated.
    pub fn get_highest_rating(&self) -> (r: Option<u32>)
        ensures
            r == highest_rating(self.ratings@),
    {
        let mut h: Option<u32> = None;
        let mut i: usize = 0;
        while i < self.ratings.len()
            invariant
                0 <= i <= self.ratings@.len(),
                h == highest_rating(self.ratings@.take(i as int)),
            decreases self.ratings@.len() - i,
        {
            proof {
                assert(self.ratings@.take(i + 1).drop_last() =~= self.ratings@.take(i as int));
            }
            let x = self.ratings[i].rating;
            h = match h {
                Some(v) => Some(if x > v { x } else { v }),
                None => Some(x),
            };
            i = i + 1;
        }
        proof {
            assert(self.ratings@.take(i as int) =~= self.ratings@);
        }
        h
    }

    /// Lowest score, if the invoice has been rated.
    pub fn get_lowest_rating(&self) -> (r: Option<u32>)
        ensures
            r == lowest_rating(self.ratings@),
    {
        let mut l: Option<u32> = None;
        let mut i: usize = 0;
        while i < self.ratings.len()
            invariant
                0 <= i <= self.ratings@.len(),
                l == lowest_rating(self.ratings@.take(i as int)),
            decreases self.ratings@.len() - i,
        {
            proof {
                assert(self.ratings@.take(i + 1).drop_last() =~= self.ratings@.take(i as int));
            }
            let x = self.ratings[i].rating;
            l = match l {
                Some(v) => Some(if x < v { x } else { v }),
                None => Some(x),
            };
            i = i + 1;
        }
        proof {
            assert(self.ratings@.take(i as int) =~= self.ratings@);
        }
        l
    }
}

/// Number of invoices of `s` in status `st`.
pub open spec fn status_count(s: Seq<Invoice>, st: InvoiceStatus) -> nat
    decreases s.len(),
{
    if s.len() == 0 {
        0
    } else {
        status_count(s.drop_last(), st) + if s.last().status == st {
            1nat
        } else {
            0nat
        }
    }
}

/// Sum of the per-status counts of `s` over every status.
pub open spec fn status_count_sum(s: Seq<Invoice>) -> nat {
    status_count(s, InvoiceStatus::Pending) + status_count(s, InvoiceStatus::Verified)
        + status_count(s, InvoiceStatus::Funded) + status_count(s, InvoiceStatus::Paid)
        + status_count(s, InvoiceStatus::Defaulted) + status_count(s, InvoiceStatus::Cancelled)
        + status_count(s, InvoiceStatus::Refunded)
}

/// Number of invoices of `s` from `business` that count toward its cap.
pub open spec fn active_business_count(s: Seq<Invoice>, business: Address) -> nat
    decreases s.len(),
{
    if s.len() == 0 {
        0
    } else {
        active_business_count(s.drop_last(), business) + if s.last().business == business
            && counts_toward_cap(s.last().status) {
            1nat
        } else {
            0nat
        }
    }
}

/// The invoices of `s` that belong to `business` and are neither cancelled
/// nor paid.
pub open spec fn unsettled_invoices_of(s: Seq<Invoice>, business: Address) -> Seq<Invoice> {
    s.filter(
        |inv: Invoice|
            inv.business == business && inv.status != InvoiceStatus::Cancelled && inv.status
                != InvoiceStatus::Paid,
    )
}

/// Adding an invoice of `business` raises its active count by one unless
/// the invoice is cancelled or paid (pending, verified, funded, defaulted
/// and refunded ones all count); a cancelled or paid invoice, or one of
/// another business, leaves the count as it was.
pub proof fn lemma_active_count_push(s: Seq<Invoice>, inv: Invoice, business: Address)
    ensures
        inv.business == business && inv.status != InvoiceStatus::Cancelled && inv.status
            != InvoiceStatus::Paid ==> active_business_count(s.push(inv), business)
            == active_business_count(s, business) + 1,
        !(inv.business == business && inv.status != InvoiceStatus::Cancelled && inv.status
            != InvoiceStatus::Paid) ==> active_business_count(s.push(inv), business)
            == active_business_count(s, business),
{
    assert(s.push(inv).drop_last() =~= s);
}

/// The active count of a business is the number of its invoices that are
/// neither cancelled nor paid.
pub proof fn lemma_active_count_is_unsettled_invoices(s: Seq<Invoice>, business: Address)
    ensures
        active_business_count(s, business) == unsettled_invoices_of(s, business).len(),
    decreases s.len(),
{
    reveal(Seq::filter);
    if s.len() > 0 {
        lemma_active_count_is_unsettled_invoices(s.drop_last(), business);
        lemma_active_count_push(s.drop_last(), s.last(), business);
        assert(s.drop_last().push(s.last()) =~= s);
    }
}

/// Whether allocator `a` has no identifier left for timestamp `ts` and
/// sequence `sq`: every one from its counter up is taken.
pub open spec fn ids_exhausted(a: InvoiceIdAllocator, ts: u64, sq: u32) -> bool {
    forall|c: u32| a.counter() <= c ==> a.issued().contains(#[trigger] id_layout(ts, sq, c))
}

/// Allocator `a` becomes `b` by handing out `id`: the identifier for its
/// timestamp and sequence with the first counter value, from `a`'s counter
/// up, that is not taken; the counter moves past it.
pub open spec fn allocation_step(a: InvoiceIdAllocator, b: InvoiceIdAllocator, id: InvoiceId) -> bool {
    &&& a.counter() <= id.counter
    &&& !a.issued().contains(id.bytes())
    &&& forall|d: u32|
        a.counter() <= d < id.counter ==> a.issued().contains(
            #[trigger] id_layout(id.timestamp, id.sequence, d),
        )
    &&& b.issued() == a.issued().push(id.bytes())
    &&& b.counter() == if id.counter == u32::MAX {
        u32::MAX
    } else {
        (id.counter + 1) as u32
    }
}

/// What uploading an invoice at ledger sequence `sequence` does to the
/// invoices `old_s` (identifier allocator `old_ids`), leaving `new_s`
/// (allocator `new_ids`) and answering `r`: it fails as
/// `invoice_params_error` says, then when the business has reached its cap
/// or no identifier is left; otherwise a pending invoice with normalized
/// tags is added under the identifier the allocator hands out.
pub open spec fn upload_outcome(
    old_s: Seq<Invoice>,
    old_ids: InvoiceIdAllocator,
    new_s: Seq<Invoice>,
    new_ids: InvoiceIdAllocator,
    limits: ProtocolLimits,
    business: Address,
    amount: i128,
    currency: Address,
    due_date: u64,
    description: Seq<u8>,
    category: InvoiceCategory,
    tags: Seq<Seq<u8>>,
    now: u64,
    sequence: u32,
    r: Result<InvoiceId, QuickLendXError>,
) -> bool {
    let params_error = invoice_params_error(
        limits,
        amount as int,
        due_date as int,
        now as int,
        description.len() as int,
        tags,
    );
    let cap_reached = limits.max_invoices_per_business > 0 && active_business_count(old_s, business)
        >= limits.max_invoices_per_business;
    let exhausted = ids_exhausted(old_ids, now, sequence);
    &&& params_error matches Some(e) ==> r == Err::<InvoiceId, QuickLendXError>(e)
    &&& params_error is None && cap_reached ==> r == Err::<InvoiceId, QuickLendXError>(
        QuickLendXError::MaxInvoicesPerBusinessExceeded,
    )
    &&& params_error is None && !cap_reached && exhausted ==> r == Err::<
        InvoiceId,
        QuickLendXError,
    >(QuickLendXError::OperationNotAllowed)
    &&& r is Ok <==> params_error is None && !cap_reached && !exhausted
    &&& r is Err ==> new_s == old_s && new_ids == old_ids
    &&& r matches Ok(id) ==> {
        &&& id.timestamp == now
        &&& id.sequence == sequence
        &&& allocation_step(old_ids, new_ids, id)
        &&& new_s.len() == old_s.len() + 1
        &&& new_s.drop_last() == old_s
        &&& ({
            let inv = new_s.last();
            &&& inv.id == id
            &&& inv.business == business
            &&& inv.amount == amount
            &&& inv.currency == currency
            &&& inv.due_date == due_date
            &&& inv.created_at == now
            &&& inv.description@ == description
            &&& inv.category == category
            &&& inv.status == InvoiceStatus::Pending
            &&& tag_views(inv.tags@) == tags.map_values(|t: Seq<u8>| normalized_tag(t))
            &&& inv.metadata_customer_name is None
            &&& inv.metadata_customer_address is None
            &&& inv.metadata_tax_id is None
            &&& inv.metadata_notes is None
            &&& inv.metadata_line_items@.len() == 0
            &&& inv.ratings@.len() == 0
        })
    }
}

/// An upload of `business` with valid parameters is refused with
/// `MaxInvoicesPerBusinessExceeded`, changing nothing, once the business
/// has as many invoices that are neither cancelled nor paid (funded ones
/// included) as its positive cap; with fewer, the cap does not refuse it.
pub proof fn lemma_upload_refused_at_cap(
    old_s: Seq<Invoice>,
    old_ids: InvoiceIdAllocator,
    new_s: Seq<Invoice>,
    new_ids: InvoiceIdAllocator,
    limits: ProtocolLimits,
    business: Address,
    amount: i128,
    currency: Address,
    due_date: u64,
    description: Seq<u8>,
    category: InvoiceCategory,
    tags: Seq<Seq<u8>>,
    now: u64,
    sequence: u32,
    r: Result<InvoiceId, QuickLendXError>,
)
    requires
        upload_outcome(
            old_s,
            old_ids,
            new_s,
            new_ids,
            limits,
            business,
            amount,
            currency,
            due_date,
            description,
            category,
            tags,
            now,
            sequence,
            r,
        ),
        invoice_params_error(
            limits,
            amount as int,
            due_date as int,
            now as int,
            description.len() as int,
            tags,
        ) is None,
    ensures
        limits.max_invoices_per_business > 0 && unsettled_invoices_of(old_s, business).len()
            >= limits.max_invoices_per_business ==> r == Err::<InvoiceId, QuickLendXError>(
            QuickLendXError::MaxInvoicesPerBusinessExceeded,
        ) && new_s == old_s,
        (limits.max_invoices_per_business == 0 || unsettled_invoices_of(old_s, business).len()
            < limits.max_invoices_per_business) ==> r != Err::<InvoiceId, QuickLendXError>(
            QuickLendXError::MaxInvoicesPerBusinessExceeded,
        ),
{
    lemma_active_count_is_unsettled_invoices(old_s, business);
}

/// What moving invoice `id` to `to` does to the invoices `old_s`, leaving
/// `new_s` and answering `r`: `InvoiceNotFound` when no invoice carries the
/// identifier; `InvalidStatus` when the move is not allowed; otherwise that
/// invoice alone changes status.
pub open spec fn status_move_outcome(
    old_s: Seq<Invoice>,
    new_s: Seq<Invoice>,
    id: InvoiceId,
    to: InvoiceStatus,
    r: Result<(), QuickLendXError>,
) -> bool {
    &&& !has_invoice(old_s, id) ==> r == Err::<(), QuickLendXError>(QuickLendXError::InvoiceNotFound)
    &&& r is Err ==> new_s == old_s
    &&& has_invoice(old_s, id) ==> exists|i: int|
        {
            &&& 0 <= i < old_s.len()
            &&& #[trigger] old_s[i].id == id
            &&& (r is Ok <==> invoice_transition_allowed(old_s[i].status, to))
            &&& r is Err ==> r == Err::<(), QuickLendXError>(QuickLendXError::InvalidStatus)
            &&& r is Ok ==> new_s == old_s.update(i, Invoice { status: to, ..old_s[i] })
        }
}

/// Identifiers of the invoices of `s` in status `st`, in order.
pub open spec fn ids_with_status(s: Seq<Invoice>, st: InvoiceStatus) -> Seq<InvoiceId>
    decreases s.len(),
{
    if s.len() == 0 {
        Seq::empty()
    } else if s.last().status == st {
        ids_with_status(s.drop_last(), st).push(s.last().id)
    } else {
        ids_with_status(s.drop_last(), st)
    }
}

/// Identifiers of the invoices of `s` that carry tag `t`, in order.
pub open spec fn ids_with_tag(s: Seq<Invoice>, t: Seq<u8>) -> Seq<InvoiceId>
    decreases s.len(),
{
    if s.len() == 0 {
        Seq::empty()
    } else if tag_views(s.last().tags@).contains(t) {
        ids_with_tag(s.drop_last(), t).push(s.last().id)
    } else {
        ids_with_tag(s.drop_last(), t)
    }
}

/// Identifiers of the invoices of `s` whose metadata names customer
/// `name`, in order.
pub open spec fn ids_with_customer(s: Seq<Invoice>, name: Seq<u8>) -> Seq<InvoiceId>
    decreases s.len(),
{
    if s.len() == 0 {
        Seq::empty()
    } else if customer_of(s.last()) == Some(name) {
        ids_with_customer(s.drop_last(), name).push(s.last().id)
    } else {
        ids_with_customer(s.drop_last(), name)
    }
}

/// Identifiers of the invoices of `s` whose metadata carries tax
/// identifier `tax_id`, in order.
pub open spec fn ids_with_tax_id(s: Seq<Invoice>, tax_id: Seq<u8>) -> Seq<InvoiceId>
    decreases s.len(),
{
    if s.len() == 0 {
        Seq::empty()
    } else if tax_id_of(s.last()) == Some(tax_id) {
        ids_with_tax_id(s.drop_last(), tax_id).push(s.last().id)
    } else {
        ids_with_tax_id(s.drop_last(), tax_id)
    }
}

/// Whether `inv` carries every tag of `ts`.
pub open spec fn carries_all(inv: Invoice, ts: Seq<Seq<u8>>) -> bool {
    forall|j: int| 0 <= j < ts.len() ==> tag_views(inv.tags@).contains(#[trigger] ts[j])
}

/// Identifiers of the invoices of `s` that carry every tag of `ts`, in
/// order.
pub open spec fn ids_with_all_tags(s: Seq<Invoice>, ts: Seq<Seq<u8>>) -> Seq<InvoiceId>
    decreases s.len(),
{
    if s.len() == 0 {
        Seq::empty()
    } else if carries_all(s.last(), ts) {
        ids_with_all_tags(s.drop_last(), ts).push(s.last().id)
    } else {
        ids_with_all_tags(s.drop_last(), ts)
    }
}

/// The normalized forms of the query tags `tags`.
pub open spec fn normalized_query(tags: Seq<Vec<u8>>) -> Seq<Seq<u8>> {
    tags.map_values(|t: Vec<u8>| normalized_tag(t@))
}

/// Whether some invoice of `s` carries identifier `id`.
pub open spec fn has_invoice(s: Seq<Invoice>, id: InvoiceId) -> bool {
    exists|i: int| 0 <= i < s.len() && (#[trigger] s[i]).id == id
}

/// Every invoice is counted under exactly one status: the per-status counts
/// always add up to the number of invoices.
pub proof fn lemma_status_counts_partition(s: Seq<Invoice>)
    ensures
        status_count_sum(s) == s.len(),
    decreases s.len(),
{
    if s.len() > 0 {
        lemma_status_counts_partition(s.drop_last());
    }
}

/// An identifier is listed under customer `name` exactly when an invoice
/// carrying it names that customer.
pub proof fn lemma_customer_index_membership(s: Seq<Invoice>, name: Seq<u8>, id: InvoiceId)
    ensures
        ids_with_customer(s, name).contains(id) <==> exists|k: int|
            0 <= k < s.len() && (#[trigger] s[k]).id == id && customer_of(s[k]) == Some(name),
    decreases s.len(),
{
    if s.len() > 0 {
        let t = s.drop_last();
        lemma_customer_index_membership(t, name, id);
        vstd::seq_lib::lemma_seq_contains_after_push(ids_with_customer(t, name), s.last().id, id);
        if exists|k: int| 0 <= k < s.len() && (#[trigger] s[k]).id == id && customer_of(s[k]) == Some(name) {
            let k = choose|k: int|
                0 <= k < s.len() && (#[trigger] s[k]).id == id && customer_of(s[k]) == Some(name);
            if k < t.len() {
                assert(t[k] == s[k]);
            }
        }
        if exists|k: int| 0 <= k < t.len() && (#[trigger] t[k]).id == id && customer_of(t[k]) == Some(name) {
            let k = choose|k: int|
                0 <= k < t.len() && (#[trigger] t[k]).id == id && customer_of(t[k]) == Some(name);
            assert(s[k] == t[k]);
        }
    }
}

/// An identifier is listed under tax identifier `tax_id` exactly when an
/// invoice carrying it carries that tax identifier.
pub proof fn lemma_tax_id_index_membership(s: Seq<Invoice>, tax_id: Seq<u8>, id: InvoiceId)
    ensures
        ids_with_tax_id(s, tax_id).contains(id) <==> exists|k: int|
            0 <= k < s.len() && (#[trigger] s[k]).id == id && tax_id_of(s[k]) == Some(tax_id),
    decreases s.len(),
{
    if s.len() > 0 {
        let t = s.drop_last();
        lemma_tax_id_index_membership(t, tax_id, id);
        vstd::seq_lib::lemma_seq_contains_after_push(ids_with_tax_id(t, tax_id), s.last().id, id);
        if exists|k: int| 0 <= k < s.len() && (#[trigger] s[k]).id == id && tax_id_of(s[k]) == Some(tax_id) {
            let k = choose|k: int|
                0 <= k < s.len() && (#[trigger] s[k]).id == id && tax_id_of(s[k]) == Some(tax_id);
            if k < t.len() {
                assert(t[k] == s[k]);
            }
        }
        if exists|k: int| 0 <= k < t.len() && (#[trigger] t[k]).id == id && tax_id_of(t[k]) == Some(tax_id) {
            let k = choose|k: int|
                0 <= k < t.len() && (#[trigger] t[k]).id == id && tax_id_of(t[k]) == Some(tax_id);
            assert(s[k] == t[k]);
        }
    }
}

/// Whether no two invoices of `s` share an identifier.
pub open spec fn ids_distinct(s: Seq<Invoice>) -> bool {
    forall|a: int, b: int|
        0 <= a < s.len() && 0 <= b < s.len() && a != b ==> (#[trigger] s[a]).id != (#[trigger] s[b]).id
}

/// Once the owner gives invoice `i` new metadata `m`, the customer and tax
/// identifier indexes list it under the new name and tax identifier and
/// under no other.
pub proof fn lemma_metadata_update_moves_indexes(
    s: Seq<Invoice>,
    i: int,
    m: InvoiceMetadata,
    other_name: Seq<u8>,
    other_tax_id: Seq<u8>,
)
    requires
        0 <= i < s.len(),
        ids_distinct(s),
    ensures
        ({
            let u = s.update(i, with_metadata(s[i], m));
            &&& ids_with_customer(u, m.customer_name@).contains(s[i].id)
            &&& ids_with_tax_id(u, m.tax_id@).contains(s[i].id)
            &&& other_name != m.customer_name@ ==> !ids_with_customer(u, other_name).contains(s[i].id)
            &&& other_tax_id != m.tax_id@ ==> !ids_with_tax_id(u, other_tax_id).contains(s[i].id)
        }),
{
    let u = s.update(i, with_metadata(s[i], m));
    let id = s[i].id;
    lemma_customer_index_membership(u, m.customer_name@, id);
    lemma_customer_index_membership(u, other_name, id);
    lemma_tax_id_index_membership(u, m.tax_id@, id);
    lemma_tax_id_index_membership(u, other_tax_id, id);
    assert(u[i].id == id);
    assert(customer_of(u[i]) == Some(m.customer_name@));
    assert(tax_id_of(u[i]) == Some(m.tax_id@));
    assert forall|k: int| 0 <= k < u.len() && (#[trigger] u[k]).id == id implies k == i by {
        if k != i {
            assert(u[k] == s[k]);
        }
    }
}

/// Once the owner clears the metadata of invoice `i` (leaving `t`), no
/// customer or tax identifier index lists it.
pub proof fn lemma_metadata_clear_leaves_indexes(
    s: Seq<Invoice>,
    t: Seq<Invoice>,
    i: int,
    name: Seq<u8>,
    tax_id: Seq<u8>,
)
    requires
        0 <= i < s.len(),
        ids_distinct(s),
        t.len() == s.len(),
        forall|k: int| 0 <= k < s.len() && k != i ==> t[k] == s[k],
        metadata_cleared_from(s[i], t[i]),
    ensures
        !ids_with_customer(t, name).contains(s[i].id),
        !ids_with_tax_id(t, tax_id).contains(s[i].id),
{
    let id = s[i].id;
    lemma_customer_index_membership(t, name, id);
    lemma_tax_id_index_membership(t, tax_id, id);
    assert forall|k: int| 0 <= k < t.len() && (#[trigger] t[k]).id == id implies k == i by {
        if k != i {
            assert(t[k] == s[k]);
        }
    }
}

/// Changing the status of invoice `i` moves it from the count of its old
/// status to that of its new one and leaves every other count unchanged.
pub proof fn lemma_status_change_moves_one(s: Seq<Invoice>, i: int, to: InvoiceStatus, st: InvoiceStatus)
    requires
        0 <= i < s.len(),
    ensures
        status_count(s.update(i, Invoice { status: to, ..s[i] }), st) + (if s[i].status == st {
            1int
        } else {
            0int
        }) == status_count(s, st) + (if to == st {
            1int
        } else {
            0int
        }),
    decreases s.len(),
{
    let x = Invoice { status: to, ..s[i] };
    if i == s.len() - 1 {
        assert(s.update(i, x).drop_last() =~= s.drop_last());
    } else {
        assert(s.update(i, x).drop_last() =~= s.drop_last().update(i, x));
        lemma_status_change_moves_one(s.drop_last(), i, to, st);
    }
}

/// Whether `a` and `b` agree on everything but their tags.
pub open spec fn same_except_tags(a: Invoice, b: Invoice) -> bool {
    &&& a.id == b.id
    &&& a.business == b.business
    &&& a.amount == b.amount
    &&& a.currency == b.currency
    &&& a.due_date == b.due_date
    &&& a.created_at == b.created_at
    &&& a.description@ == b.description@
    &&& a.category == b.category
    &&& a.status == b.status
    &&& a.metadata_customer_name == b.metadata_customer_name
    &&& a.metadata_customer_address == b.metadata_customer_address
    &&& a.metadata_tax_id == b.metadata_tax_id
    &&& a.metadata_notes == b.metadata_notes
    &&& a.metadata_line_items == b.metadata_line_items
    &&& a.ratings == b.ratings
}

/// Position of a tag equal to `t` in `tags`, if any.
fn position_of_tag(tags: &Vec<Vec<u8>>, t: &Vec<u8>) -> (r: Option<usize>)
    ensures
        r matches Some(k) ==> k < tags@.len() && tags@[k as int]@ == t@,
        r is None <==> !tag_views(tags@).contains(t@),
{
    let mut k: usize = 0;
    while k < tags.len()
        invariant
            0 <= k <= tags@.len(),
            forall|j: int| 0 <= j < k ==> (#[trigger] tags@[j])@ != t@,
        decreases tags@.len() - k,
    {
        if bytes_equal(&tags[k], t) {
            proof {
                assert(tag_views(tags@)[k as int] == t@);
            }
            return Some(k);
        }
        k = k + 1;
    }
    proof {
        if tag_views(tags@).contains(t@) {
            let j = choose|j: int| 0 <= j < tag_views(tags@).len() && tag_views(tags@)[j] == t@;
            assert(tags@[j]@ == t@);
        }
    }
    None
}

/// A copy of the bytes of `b`.
fn copy_bytes(b: &Vec<u8>) -> (r: Vec<u8>)
    ensures
        r@ == b@,
{
    let mut r: Vec<u8> = Vec::new();
    let mut i: usize = 0;
    while i < b.len()
        invariant
            0 <= i <= b@.len(),
            r@ == b@.take(i as int),
        decreases b@.len() - i,
    {
        r.push(b[i]);
        i = i + 1;
        proof {
            assert(r@ =~= b@.take(i as int));
        }
    }
    proof {
        assert(b@.take(i as int) =~= b@);
    }
    r
}

/// A copy of the tags `tags`.
fn copy_tags(tags: &Vec<Vec<u8>>) -> (r: Vec<Vec<u8>>)
    ensures
        tag_views(r@) == tag_views(tags@),
{
    let mut r: Vec<Vec<u8>> = Vec::new();
    let mut i: usize = 0;
    while i < tags.len()
        invariant
            0 <= i <= tags@.len(),
            tag_views(r@) == tag_views(tags@).take(i as int),
        decreases tags@.len() - i,
    {
        let c = copy_bytes(&tags[i]);
        let ghost before = r@;
        r.push(c);
        proof {
            assert(tag_views(r@) =~= tag_views(before).push(c@));
            assert(tag_views(tags@).take(i + 1) =~= tag_views(tags@).take(i as int).push(
                tags@[i as int]@,
            ));
        }
        i = i + 1;
    }
    proof {
        assert(tag_views(tags@).take(i as int) =~= tag_views(tags@));
    }
    r
}

/// The invoices, in upload order.
pub struct InvoiceRegistry {
    invoices: Vec<Invoice>,
    ids: InvoiceIdAllocator,
}

impl InvoiceRegistry {
    /// The stored invoices, in upload order.
    pub closed spec fn stored(&self) -> Seq<Invoice> {
        self.invoices@
    }

    /// The allocator of invoice identifiers.
    pub closed spec fn id_allocator(&self) -> InvoiceIdAllocator {
        self.ids
    }

    /// Well-formedness: every stored identifier was handed out by the
    /// allocator, and no two invoices share one.
    pub open spec fn wf(&self) -> bool {
        &&& self.id_allocator().wf()
        &&& forall|i: int|
            0 <= i < self.stored().len() ==> self.id_allocator().issued().contains(
                (#[trigger] self.stored()[i]).id.bytes(),
            )
        &&& forall|i: int, j: int|
            0 <= i < self.stored().len() && 0 <= j < self.stored().len() && i != j
                ==> (#[trigger] self.stored()[i]).id != (#[trigger] self.stored()[j]).id
    }

    /// An empty registry.
    pub fn new() -> (r: Self)
        ensures
            r.wf(),
            r.stored() == Seq::<Invoice>::empty(),
            r.id_allocator().counter() == 0,
            r.id_allocator().issued() == Seq::<Seq<u8>>::empty(),
    {
        InvoiceRegistry { invoices: Vec::new(), ids: InvoiceIdAllocator::new() }
    }

    /// Position of the invoice with identifier `id`, if stored.
    pub(crate) fn find(&self, id: InvoiceId) -> (r: Option<usize>)
        ensures
            r matches Some(i) ==> i < self.stored().len() && self.stored()[i as int].id == id,
            r is None ==> !has_invoice(self.stored(), id),
    {
        let mut i: usize = 0;
        while i < self.invoices.len()
            invariant
                0 <= i <= self.invoices@.len(),
                forall|j: int| 0 <= j < i ==> (#[trigger] self.invoices@[j]).id != id,
            decreases self.invoices@.len() - i,
        {
            if self.invoices[i].id == id {
                return Some(i);
            }
            i = i + 1;
        }
        None
    }

    /// The invoice at position `p`, in upload order.
    pub(crate) fn invoice_at(&self, p: usize) -> (r: &Invoice)
        requires
            p < self.stored().len(),
        ensures
            *r == self.stored()[p as int],
    {
        &self.invoices[p]
    }

    /// Moves the invoice at position `p` to status `to`, bypassing the
    /// transition check; callers check the move themselves.
    pub(crate) fn set_status_at(&mut self, p: usize, to: InvoiceStatus)
        requires
            old(self).wf(),
            p < old(self).stored().len(),
        ensures
            final(self).wf(),
            final(self).id_allocator() == old(self).id_allocator(),
            final(self).stored() == old(self).stored().update(
                p as int,
                Invoice { status: to, ..old(self).stored()[p as int] },
            ),
    {
        let ghost old_s = self.invoices@;
        self.invoices[p].status = to;
        proof {
            let s = self.invoices@;
            assert(s =~= old_s.update(p as int, Invoice { status: to, ..old_s[p as int] }));
            assert forall|k: int| 0 <= k < s.len() implies self.ids.issued().contains((#[trigger] s[k]).id.bytes()) by {
                assert(s[k].id == old_s[k].id);
            }
            assert forall|a: int, b: int|
                0 <= a < s.len() && 0 <= b < s.len() && a != b implies (#[trigger] s[a]).id != (
            #[trigger] s[b]).id by {
                assert(s[a].id == old_s[a].id);
                assert(s[b].id == old_s[b].id);
            }
        }
    }

    /// Adds a rating to the invoice at position `p`, as
    /// `Invoice::add_rating` does; no other invoice changes.
    pub(crate) fn rate_at(
        &mut self,
        p: usize,
        rating: u32,
        feedback: Vec<u8>,
        rater: Address,
        now: u64,
    ) -> (r: Result<(), QuickLendXError>)
        requires
            old(self).wf(),
            p < old(self).stored().len(),
        ensures
            final(self).wf(),
            final(self).id_allocator() == old(self).id_allocator(),
            ({
                let old_inv = old(self).stored()[p as int];
                let new_inv = final(self).stored()[p as int];
                &&& rating_error(old_inv.status, rating, feedback@) matches Some(e) ==> r == Err::<
                    (),
                    QuickLendXError,
                >(e)
                &&& r is Ok <==> rating_error(old_inv.status, rating, feedback@) is None
                &&& r is Err ==> final(self).stored() == old(self).stored()
                &&& r is Ok ==> {
                    &&& final(self).stored() == old(self).stored().update(p as int, new_inv)
                    &&& new_inv == (Invoice { ratings: new_inv.ratings, ..old_inv })
                    &&& new_inv.ratings@.drop_last() == old_inv.ratings@
                    &&& new_inv.ratings@.len() == old_inv.ratings@.len() + 1
                    &&& new_inv.ratings@.last().rating == rating
                    &&& new_inv.ratings@.last().feedback@ == feedback@
                    &&& new_inv.ratings@.last().rated_by == rater
                    &&& new_inv.ratings@.last().rated_at == now
                }
            }),
    {
        let ghost old_s = self.invoices@;
        let r = self.invoices[p].add_rating(rating, feedback, rater, now);
        proof {
            let s = self.invoices@;
            assert(s =~= old_s.update(p as int, s[p as int]));
            assert forall|k: int| 0 <= k < s.len() implies self.ids.issued().contains((#[trigger] s[k]).id.bytes()) by {
                assert(s[k].id == old_s[k].id);
            }
            assert forall|a: int, b: int|
                0 <= a < s.len() && 0 <= b < s.len() && a != b implies (#[trigger] s[a]).id != (
            #[trigger] s[b]).id by {
                assert(s[a].id == old_s[a].id);
                assert(s[b].id == old_s[b].id);
            }
        }
        r
    }

    /// The invoice with identifier `id`, if stored.
    pub fn get_invoice(&self, id: InvoiceId) -> (r: Option<&Invoice>)
        requires
            self.wf(),
        ensures
            r is None <==> !has_invoice(self.stored(), id),
            r matches Some(inv) ==> inv.id == id && self.stored().contains(*inv),
    {
        match self.find(id) {
            Some(i) => Some(&self.invoices[i]),
            None => None,
        }
    }

    /// Number of invoices of `business` that count toward its cap.
    pub fn count_active_business_invoices(&self, business: Address) -> (r: usize)
        ensures
            r == active_business_count(self.stored(), business),
            r == unsettled_invoices_of(self.stored(), business).len(),
    {
        let mut n: usize = 0;
        let mut i: usize = 0;
        while i < self.invoices.len()
            invariant
                0 <= i <= self.invoices@.len(),
                n == active_business_count(self.invoices@.take(i as int), business),
                n <= i,
            decreases self.invoices@.len() - i,
        {
            proof {
                assert(self.invoices@.take(i + 1).drop_last() =~= self.invoices@.take(i as int));
            }
            let inv = &self.invoices[i];
            if inv.business == business && inv.status != InvoiceStatus::Cancelled && inv.status
                != InvoiceStatus::Paid {
                n = n + 1;
            }
            i = i + 1;
        }
        proof {
            assert(self.invoices@.take(i as int) =~= self.invoices@);
            lemma_active_count_is_unsettled_invoices(self.invoices@, business);
        }
        n
    }

    /// Stores a new pending invoice, uploaded at `now` and ledger sequence
    /// `sequence`, and returns its identifier.
    ///
    /// Fails as `validate_invoice_params` does; then with
    /// `MaxInvoicesPerBusinessExceeded` when the business already has as many
    /// active invoices as the cap allows (a cap of 0 means none), and with
    /// `OperationNotAllowed` when no identifier is left for `now` and
    /// `sequence`. Tags are stored in normalized form. Nothing changes on
    /// failure.
    pub fn store_invoice(
        &mut self,
        limits: &ProtocolLimits,
        business: Address,
        amount: i128,
        currency: Address,
        due_date: u64,
        description: Vec<u8>,
        category: InvoiceCategory,
        tags: &Vec<Vec<u8>>,
        now: u64,
        sequence: u32,
    ) -> (r: Result<InvoiceId, QuickLendXError>)
        requires
            old(self).wf(),
        ensures
            final(self).wf(),
            r is Err ==> *final(self) == *old(self),
            upload_outcome(
                old(self).stored(),
                old(self).id_allocator(),
                final(self).stored(),
                final(self).id_allocator(),
                *limits,
                business,
                amount,
                currency,
                due_date,
                description@,
                category,
                tag_views(tags@),
                now,
                sequence,
                r,
            ),
    {
        let normalized = match validate_invoice_params(
            limits,
            amount,
            due_date,
            now,
            &description,
            tags,
        ) {
            Ok(v) => v,
            Err(e) => {
                return Err(e);
            },
        };
        if limits.max_invoices_per_business > 0 {
            let active = self.count_active_business_invoices(business);
            if active >= limits.max_invoices_per_business as usize {
                return Err(QuickLendXError::MaxInvoicesPerBusinessExceeded);
            }
        }
        let ghost old_ids = self.ids;
        let bytes = match self.ids.allocate(now, sequence) {
            Some(b) => b,
            None => {
                return Err(QuickLendXError::OperationNotAllowed);
            },
        };
        let id = InvoiceId { timestamp: now, sequence, counter: id_counter(&bytes) };
        proof {
            assert(!ids_exhausted(old_ids, now, sequence));
            let c = choose|c: u32|
                {
                    &&& old_ids.counter() <= c
                    &&& bytes@ == #[trigger] id_layout(now, sequence, c)
                    &&& !old_ids.issued().contains(bytes@)
                    &&& forall|d: u32|
                        old_ids.counter() <= d < c ==> old_ids.issued().contains(
                            #[trigger] id_layout(now, sequence, d),
                        )
                    &&& self.ids.issued() == old_ids.issued().push(bytes@)
                    &&& self.ids.counter() == if c == u32::MAX {
                        u32::MAX
                    } else {
                        (c + 1) as u32
                    }
                };
            lemma_id_round_trip(now, sequence, c);
            assert(id.counter == c);
            assert(id.bytes() == bytes@);
            assert(allocation_step(old_ids, self.ids, id));
        }
        let ghost old_s = self.invoices@;
        self.invoices.push(
            Invoice {
                id,
                business,
                amount,
                currency,
                due_date,
                created_at: now,
                description,
                category,
                tags: normalized,
                status: InvoiceStatus::Pending,
                metadata_customer_name: None,
                metadata_customer_address: None,
                metadata_tax_id: None,
                metadata_notes: None,
                metadata_line_items: Vec::new(),
                ratings: Vec::new(),
            },
        );
        proof {
            assert(self.invoices@.drop_last() =~= old_s);
            assert forall|i: int| 0 <= i < self.invoices@.len() implies self.ids.issued().contains(
                (#[trigger] self.invoices@[i]).id.bytes(),
            ) by {
                if i < old_s.len() {
                    assert(self.invoices@[i] == old_s[i]);
                    assert(old_ids.issued().contains(old_s[i].id.bytes()));
                    let w = choose|w: int| 0 <= w < old_ids.issued().len() && old_ids.issued()[w] == old_s[i].id.bytes();
                    assert(self.ids.issued()[w] == old_s[i].id.bytes());
                } else {
                    assert(self.ids.issued()[old_ids.issued().len() as int] == id.bytes());
                }
            }
            assert forall|i: int, j: int|
                0 <= i < self.invoices@.len() && 0 <= j < self.invoices@.len() && i
                    != j implies (#[trigger] self.invoices@[i]).id != (
            #[trigger] self.invoices@[j]).id by {
                if i < old_s.len() {
                    assert(self.invoices@[i] == old_s[i]);
                    assert(old_ids.issued().contains(old_s[i].id.bytes()));
                }
                if j < old_s.len() {
                    assert(self.invoices@[j] == old_s[j]);
                    assert(old_ids.issued().contains(old_s[j].id.bytes()));
                }
            }
        }
        Ok(id)
    }

    /// Moves invoice `id` to status `to`. `InvoiceNotFound` when no such
    /// invoice is stored; `InvalidStatus` when the move is not allowed.
    /// Nothing changes on failure.
    pub fn update_invoice_status(&mut self, id: InvoiceId, to: InvoiceStatus) -> (r: Result<
        (),
        QuickLendXError,
    >)
        requires
            old(self).wf(),
        ensures
            final(self).wf(),
            final(self).id_allocator() == old(self).id_allocator(),
            r is Err ==> *final(self) == *old(self),
            status_move_outcome(old(self).stored(), final(self).stored(), id, to, r),
    {
        let i = match self.find(id) {
            Some(i) => i,
            None => {
                return Err(QuickLendXError::InvoiceNotFound);
            },
        };
        let from = self.invoices[i].status;
        InvoiceStatus::validate_transition(&from, &to)?;
        let ghost old_s = self.invoices@;
        self.invoices[i].status = to;
        proof {
            let s = self.invoices@;
            assert(s =~= old_s.update(i as int, Invoice { status: to, ..old_s[i as int] }));
            assert forall|k: int| 0 <= k < s.len() implies self.ids.issued().contains((#[trigger] s[k]).id.bytes()) by {
                assert(s[k].id == old_s[k].id);
            }
            assert forall|a: int, b: int|
                0 <= a < s.len() && 0 <= b < s.len() && a != b implies (#[trigger] s[a]).id != (
            #[trigger] s[b]).id by {
                assert(s[a].id == old_s[a].id);
                assert(s[b].id == old_s[b].id);
            }
        }
        Ok(())
    }

    /// Cancels invoice `id` (pending, verified or funded); fails as
    /// `update_invoice_status` does.
    pub fn cancel_invoice(&mut self, id: InvoiceId) -> (r: Result<(), QuickLendXError>)
        requires
            old(self).wf(),
        ensures
            final(self).wf(),
            final(self).id_allocator() == old(self).id_allocator(),
            r is Err ==> *final(self) == *old(self),
            status_move_outcome(old(self).stored(), final(self).stored(), id, InvoiceStatus::Cancelled, r),
    {
        self.update_invoice_status(id, InvoiceStatus::Cancelled)
    }

    /// Adds the normalized form of `tag` to invoice `id`.
    ///
    /// `InvoiceNotFound` when no such invoice is stored; `InvalidTag` when the
    /// normalized tag is empty or too long; nothing happens when the invoice
    /// already carries it; `TagLimitExceeded` when it already carries
    /// `MAX_TAGS_PER_INVOICE` tags. Nothing changes on failure.
    pub fn add_invoice_tag(&mut self, id: InvoiceId, tag: &Vec<u8>) -> (r: Result<(), QuickLendXError>)
        requires
            old(self).wf(),
        ensures
            final(self).wf(),
            final(self).id_allocator() == old(self).id_allocator(),
            !has_invoice(old(self).stored(), id) ==> r == Err::<(), QuickLendXError>(
                QuickLendXError::InvoiceNotFound,
            ),
            r is Err ==> *final(self) == *old(self),
            has_invoice(old(self).stored(), id) ==> exists|i: int|
                #![trigger old(self).stored()[i]]
                {
                    let inv = old(self).stored()[i];
                    let t = normalized_tag(tag@);
                    let present = tag_views(inv.tags@).contains(t);
                    &&& 0 <= i < old(self).stored().len()
                    &&& inv.id == id
                    &&& !tag_valid(t) ==> r == Err::<(), QuickLendXError>(
                        QuickLendXError::InvalidTag,
                    )
                    &&& tag_valid(t) && !present && inv.tags@.len() >= MAX_TAGS_PER_INVOICE ==> r
                        == Err::<(), QuickLendXError>(QuickLendXError::TagLimitExceeded)
                    &&& r is Ok <==> tag_valid(t) && (present || inv.tags@.len()
                        < MAX_TAGS_PER_INVOICE)
                    &&& r is Ok && present ==> final(self).stored() == old(self).stored()
                    &&& r is Ok && !present ==> {
                        &&& final(self).stored().len() == old(self).stored().len()
                        &&& forall|k: int|
                            0 <= k < old(self).stored().len() && k != i ==> final(self).stored()[k] == old(self).stored()[k]
                        &&& same_except_tags(final(self).stored()[i], inv)
                        &&& tag_views(final(self).stored()[i].tags@) == tag_views(inv.tags@).push(t)
                    }
                },
    {
        let i = match self.find(id) {
            Some(i) => i,
            None => {
                return Err(QuickLendXError::InvoiceNotFound);
            },
        };
        let t = validate_tag(tag)?;
        if position_of_tag(&self.invoices[i].tags, &t).is_some() {
            return Ok(());
        }
        if self.invoices[i].tags.len() >= MAX_TAGS_PER_INVOICE as usize {
            return Err(QuickLendXError::TagLimitExceeded);
        }
        let ghost old_s = self.invoices@;
        let mut tags = copy_tags(&self.invoices[i].tags);
        tags.push(t);
        self.invoices[i].tags = tags;
        proof {
            let s = self.invoices@;
            assert(tag_views(s[i as int].tags@) =~= tag_views(old_s[i as int].tags@).push(
                normalized_tag(tag@),
            ));
            assert forall|k: int| 0 <= k < s.len() implies self.ids.issued().contains((#[trigger] s[k]).id.bytes()) by {
                assert(s[k].id == old_s[k].id);
            }
            assert forall|a: int, b: int|
                0 <= a < s.len() && 0 <= b < s.len() && a != b implies (#[trigger] s[a]).id != (
            #[trigger] s[b]).id by {
                assert(s[a].id == old_s[a].id);
                assert(s[b].id == old_s[b].id);
            }
        }
        Ok(())
    }

    /// Removes the normalized form of `tag` from invoice `id`, if it carries
    /// it; `InvoiceNotFound` when no such invoice is stored.
    pub fn remove_invoice_tag(&mut self, id: InvoiceId, tag: &Vec<u8>) -> (r: Result<(), QuickLendXError>)
        requires
            old(self).wf(),
        ensures
            final(self).wf(),
            final(self).id_allocator() == old(self).id_allocator(),
            !has_invoice(old(self).stored(), id) ==> r == Err::<(), QuickLendXError>(
                QuickLendXError::InvoiceNotFound,
            ),
            r is Err ==> *final(self) == *old(self),
            has_invoice(old(self).stored(), id) ==> r is Ok && exists|i: int|
                #![trigger old(self).stored()[i]]
                {
                    let inv = old(self).stored()[i];
                    let t = normalized_tag(tag@);
                    &&& 0 <= i < old(self).stored().len()
                    &&& inv.id == id
                    &&& final(self).stored().len() == old(self).stored().len()
                    &&& forall|k: int|
                        0 <= k < old(self).stored().len() && k != i ==> final(self).stored()[k]
                            == old(self).stored()[k]
                    &&& same_except_tags(final(self).stored()[i], inv)
                    &&& tag_views(final(self).stored()[i].tags@) == tag_views(inv.tags@).filter(
                        |x: Seq<u8>| x != t,
                    )
                },
    {
        let i = match self.find(id) {
            Some(i) => i,
            None => {
                return Err(QuickLendXError::InvoiceNotFound);
            },
        };
        let t = normalize_tag(tag);
        let ghost old_s = self.invoices@;
        let ghost pred = |x: Seq<u8>| x != t@;
        let ghost old_views = tag_views(old_s[i as int].tags@);
        let mut kept: Vec<Vec<u8>> = Vec::new();
        let mut k: usize = 0;
        let n = self.invoices[i].tags.len();
        while k < n
            invariant
                0 <= k <= n,
                i < self.invoices@.len(),
                self.invoices@ == old_s,
                n == old_s[i as int].tags@.len(),
                old_views == tag_views(old_s[i as int].tags@),
                tag_views(kept@) == old_views.take(k as int).filter(pred),
                forall|x: Seq<u8>| #[trigger] pred(x) == (x != t@),
            decreases n - k,
        {
            let same = bytes_equal(&self.invoices[i].tags[k], &t);
            proof {
                assert(old_views.take(k + 1) =~= old_views.take(k as int).push(old_views[k as int]));
                old_views.take(k as int).lemma_filter_push(old_views[k as int], pred);
                assert(old_views[k as int] == self.invoices@[i as int].tags@[k as int]@);
            }
            if !same {
                let c = copy_bytes(&self.invoices[i].tags[k]);
                let ghost before = kept@;
                kept.push(c);
                proof {
                    assert(tag_views(kept@) =~= tag_views(before).push(c@));
                    assert(tag_views(kept@) == old_views.take(k + 1).filter(pred));
                }
            } else {
                proof {
                    assert(tag_views(kept@) == old_views.take(k + 1).filter(pred));
                }
            }
            k = k + 1;
        }
        proof {
            assert(old_views.take(n as int) =~= old_views);
        }
        self.invoices[i].tags = kept;
        proof {
            let s = self.invoices@;
            assert(pred =~= (|x: Seq<u8>| x != normalized_tag(tag@)));
            assert(same_except_tags(s[i as int], old_s[i as int]));
            assert(old(self).stored()[i as int] == old_s[i as int]);
            assert forall|x: int| 0 <= x < old_s.len() && x != i implies s[x] == old_s[x] by {}
            assert forall|x: int| 0 <= x < s.len() implies self.ids.issued().contains((#[trigger] s[x]).id.bytes()) by {
                assert(s[x].id == old_s[x].id);
            }
            assert forall|a: int, b: int|
                0 <= a < s.len() && 0 <= b < s.len() && a != b implies (#[trigger] s[a]).id != (
            #[trigger] s[b]).id by {
                assert(s[a].id == old_s[a].id);
                assert(s[b].id == old_s[b].id);
            }
        }
        Ok(())
    }

    /// Replaces the metadata of invoice `id` as `Invoice::update_metadata`
    /// does; `InvoiceNotFound` when no such invoice is stored. Nothing
    /// changes on failure.
    pub fn update_invoice_metadata(
        &mut self,
        id: InvoiceId,
        caller: Address,
        metadata: InvoiceMetadata,
    ) -> (r: Result<(), QuickLendXError>)
        requires
            old(self).wf(),
        ensures
            final(self).wf(),
            final(self).id_allocator() == old(self).id_allocator(),
            !has_invoice(old(self).stored(), id) ==> r == Err::<(), QuickLendXError>(
                QuickLendXError::InvoiceNotFound,
            ),
            r is Err ==> *final(self) == *old(self),
            has_invoice(old(self).stored(), id) ==> exists|i: int|
                #![trigger old(self).stored()[i]]
                {
                    let inv = old(self).stored()[i];
                    &&& 0 <= i < old(self).stored().len()
                    &&& inv.id == id
                    &&& caller != inv.business ==> r == Err::<(), QuickLendXError>(
                        QuickLendXError::Unauthorized,
                    )
                    &&& caller == inv.business ==> (metadata_error(metadata) matches Some(e)
                        ==> r == Err::<(), QuickLendXError>(e))
                    &&& r is Ok <==> caller == inv.business && metadata_error(metadata) is None
                    &&& r is Ok ==> final(self).stored() == old(self).stored().update(
                        i,
                        with_metadata(inv, metadata),
                    )
                },
    {
        let i = match self.find(id) {
            Some(i) => i,
            None => {
                return Err(QuickLendXError::InvoiceNotFound);
            },
        };
        if caller != self.invoices[i].business {
            return Err(QuickLendXError::Unauthorized);
        }
        validate_metadata(&metadata)?;
        let ghost old_s = self.invoices@;
        let r = self.invoices[i].update_metadata(caller, metadata);
        proof {
            let s = self.invoices@;
            assert(s =~= old_s.update(i as int, with_metadata(old_s[i as int], metadata)));
            assert forall|k: int| 0 <= k < s.len() implies self.ids.issued().contains((#[trigger] s[k]).id.bytes()) by {
                assert(s[k].id == old_s[k].id);
            }
            assert forall|a: int, b: int|
                0 <= a < s.len() && 0 <= b < s.len() && a != b implies (#[trigger] s[a]).id != (
            #[trigger] s[b]).id by {
                assert(s[a].id == old_s[a].id);
                assert(s[b].id == old_s[b].id);
            }
        }
        r
    }

    /// Removes the metadata of invoice `id` as `Invoice::clear_metadata`
    /// does; `InvoiceNotFound` when no such invoice is stored. Nothing
    /// changes on failure.
    pub fn clear_invoice_metadata(&mut self, id: InvoiceId, caller: Address) -> (r: Result<
        (),
        QuickLendXError,
    >)
        requires
            old(self).wf(),
        ensures
            final(self).wf(),
            final(self).id_allocator() == old(self).id_allocator(),
            !has_invoice(old(self).stored(), id) ==> r == Err::<(), QuickLendXError>(
                QuickLendXError::InvoiceNotFound,
            ),
            r is Err ==> *final(self) == *old(self),
            has_invoice(old(self).stored(), id) ==> exists|i: int|
                #![trigger old(self).stored()[i]]
                {
                    let inv = old(self).stored()[i];
                    &&& 0 <= i < old(self).stored().len()
                    &&& inv.id == id
                    &&& r is Ok <==> caller == inv.business
                    &&& r is Err ==> r == Err::<(), QuickLendXError>(QuickLendXError::Unauthorized)
                    &&& r is Ok ==> {
                        &&& final(self).stored().len() == old(self).stored().len()
                        &&& forall|k: int|
                            0 <= k < old(self).stored().len() && k != i ==> final(self).stored()[k]
                                == old(self).stored()[k]
                        &&& metadata_cleared_from(inv, final(self).stored()[i])
                    }
                },
    {
        let i = match self.find(id) {
            Some(i) => i,
            None => {
                return Err(QuickLendXError::InvoiceNotFound);
            },
        };
        if caller != self.invoices[i].business {
            return Err(QuickLendXError::Unauthorized);
        }
        let ghost old_s = self.invoices@;
        let r = self.invoices[i].clear_metadata(caller);
        proof {
            let s = self.invoices@;
            assert forall|k: int| 0 <= k < old_s.len() && k != i implies s[k] == old_s[k] by {}
            assert forall|k: int| 0 <= k < s.len() implies self.ids.issued().contains((#[trigger] s[k]).id.bytes()) by {
                assert(s[k].id == old_s[k].id);
            }
            assert forall|a: int, b: int|
                0 <= a < s.len() && 0 <= b < s.len() && a != b implies (#[trigger] s[a]).id != (
            #[trigger] s[b]).id by {
                assert(s[a].id == old_s[a].id);
                assert(s[b].id == old_s[b].id);
            }
        }
        r
    }

    /// Identifiers of the invoices whose metadata names customer `name`, in
    /// upload order.
    pub fn get_invoices_by_customer(&self, name: &Vec<u8>) -> (r: Vec<InvoiceId>)
        ensures
            r@ == ids_with_customer(self.stored(), name@),
    {
        let mut out: Vec<InvoiceId> = Vec::new();
        let mut i: usize = 0;
        while i < self.invoices.len()
            invariant
                0 <= i <= self.invoices@.len(),
                out@ == ids_with_customer(self.invoices@.take(i as int), name@),
            decreases self.invoices@.len() - i,
        {
            proof {
                assert(self.invoices@.take(i + 1).drop_last() =~= self.invoices@.take(i as int));
            }
            let hit = match &self.invoices[i].metadata_customer_name {
                Some(n) => bytes_equal(n, name),
                None => false,
            };
            if hit {
                out.push(self.invoices[i].id);
            }
            i = i + 1;
        }
        proof {
            assert(self.invoices@.take(i as int) =~= self.invoices@);
        }
        out
    }

    /// Identifiers of the invoices whose metadata carries tax identifier
    /// `tax_id`, in upload order.
    pub fn get_invoices_by_tax_id(&self, tax_id: &Vec<u8>) -> (r: Vec<InvoiceId>)
        ensures
            r@ == ids_with_tax_id(self.stored(), tax_id@),
    {
        let mut out: Vec<InvoiceId> = Vec::new();
        let mut i: usize = 0;
        while i < self.invoices.len()
            invariant
                0 <= i <= self.invoices@.len(),
                out@ == ids_with_tax_id(self.invoices@.take(i as int), tax_id@),
            decreases self.invoices@.len() - i,
        {
            proof {
                assert(self.invoices@.take(i + 1).drop_last() =~= self.invoices@.take(i as int));
            }
            let hit = match &self.invoices[i].metadata_tax_id {
                Some(t) => bytes_equal(t, tax_id),
                None => false,
            };
            if hit {
                out.push(self.invoices[i].id);
            }
            i = i + 1;
        }
        proof {
            assert(self.invoices@.take(i as int) =~= self.invoices@);
        }
        out
    }

    /// Identifiers of the invoices that carry the normalized form of `tag`,
    /// in upload order.
    pub fn get_invoices_by_tag(&self, tag: &Vec<u8>) -> (r: Vec<InvoiceId>)
        ensures
            r@ == ids_with_tag(self.stored(), normalized_tag(tag@)),
    {
        let t = normalize_tag(tag);
        let mut out: Vec<InvoiceId> = Vec::new();
        let mut i: usize = 0;
        while i < self.invoices.len()
            invariant
                0 <= i <= self.invoices@.len(),
                t@ == normalized_tag(tag@),
                out@ == ids_with_tag(self.invoices@.take(i as int), t@),
            decreases self.invoices@.len() - i,
        {
            proof {
                assert(self.invoices@.take(i + 1).drop_last() =~= self.invoices@.take(i as int));
            }
            if position_of_tag(&self.invoices[i].tags, &t).is_some() {
                out.push(self.invoices[i].id);
            }
            i = i + 1;
        }
        proof {
            assert(self.invoices@.take(i as int) =~= self.invoices@);
        }
        out
    }

    /// Number of invoices that carry the normalized form of `tag`.
    pub fn get_invoice_count_by_tag(&self, tag: &Vec<u8>) -> (r: usize)
        ensures
            r == ids_with_tag(self.stored(), normalized_tag(tag@)).len(),
    {
        self.get_invoices_by_tag(tag).len()
    }

    /// Identifiers of the invoices that carry the normalized form of every
    /// tag of `tags`, in upload order.
    pub fn get_invoices_by_tags(&self, tags: &Vec<Vec<u8>>) -> (r: Vec<InvoiceId>)
        ensures
            r@ == ids_with_all_tags(self.stored(), normalized_query(tags@)),
    {
        let ghost q = normalized_query(tags@);
        let mut query: Vec<Vec<u8>> = Vec::new();
        let mut k: usize = 0;
        while k < tags.len()
            invariant
                0 <= k <= tags@.len(),
                q == normalized_query(tags@),
                query@.len() == k,
                forall|j: int| 0 <= j < k ==> (#[trigger] query@[j])@ == q[j],
            decreases tags@.len() - k,
        {
            query.push(normalize_tag(&tags[k]));
            k = k + 1;
        }
        let mut out: Vec<InvoiceId> = Vec::new();
        let mut i: usize = 0;
        while i < self.invoices.len()
            invariant
                0 <= i <= self.invoices@.len(),
                q == normalized_query(tags@),
                query@.len() == q.len(),
                forall|j: int| 0 <= j < q.len() ==> (#[trigger] query@[j])@ == q[j],
                out@ == ids_with_all_tags(self.invoices@.take(i as int), q),
            decreases self.invoices@.len() - i,
        {
            proof {
                assert(self.invoices@.take(i + 1).drop_last() =~= self.invoices@.take(i as int));
            }
            let mut all = true;
            let mut j: usize = 0;
            while j < query.len()
                invariant
                    0 <= j <= query@.len(),
                    i < self.invoices@.len(),
                    query@.len() == q.len(),
                    forall|x: int| 0 <= x < q.len() ==> (#[trigger] query@[x])@ == q[x],
                    all <==> forall|x: int|
                        0 <= x < j ==> tag_views(self.invoices@[i as int].tags@).contains(
                            #[trigger] q[x],
                        ),
                decreases query@.len() - j,
            {
                if position_of_tag(&self.invoices[i].tags, &query[j]).is_none() {
                    all = false;
                }
                j = j + 1;
            }
            if all {
                out.push(self.invoices[i].id);
            }
            i = i + 1;
        }
        proof {
            assert(self.invoices@.take(i as int) =~= self.invoices@);
        }
        out
    }

    /// Whether invoice `id` carries the normalized form of `tag`;
    /// `InvoiceNotFound` when no such invoice is stored.
    pub fn invoice_has_tag(&self, id: InvoiceId, tag: &Vec<u8>) -> (r: Result<bool, QuickLendXError>)
        requires
            self.wf(),
        ensures
            !has_invoice(self.stored(), id) ==> r == Err::<bool, QuickLendXError>(
                QuickLendXError::InvoiceNotFound,
            ),
            has_invoice(self.stored(), id) ==> exists|i: int|
                0 <= i < self.stored().len() && self.stored()[i].id == id && r == Ok::<
                    bool,
                    QuickLendXError,
                >(tag_views(self.stored()[i].tags@).contains(normalized_tag(tag@))),
    {
        let i = match self.find(id) {
            Some(i) => i,
            None => {
                return Err(QuickLendXError::InvoiceNotFound);
            },
        };
        let t = normalize_tag(tag);
        Ok(position_of_tag(&self.invoices[i].tags, &t).is_some())
    }

    /// Number of invoices in status `status`.
    pub fn get_invoice_count_by_status(&self, status: InvoiceStatus) -> (r: usize)
        ensures
            r == status_count(self.stored(), status),
    {
        let mut n: usize = 0;
        let mut i: usize = 0;
        while i < self.invoices.len()
            invariant
                0 <= i <= self.invoices@.len(),
                n == status_count(self.invoices@.take(i as int), status),
                n <= i,
            decreases self.invoices@.len() - i,
        {
            proof {
                assert(self.invoices@.take(i + 1).drop_last() =~= self.invoices@.take(i as int));
            }
            if self.invoices[i].status == status {
                n = n + 1;
            }
            i = i + 1;
        }
        proof {
            assert(self.invoices@.take(i as int) =~= self.invoices@);
        }
        n
    }

    /// Number of stored invoices.
    pub fn get_total_invoice_count(&self) -> (r: usize)
        ensures
            r == self.stored().len(),
    {
        self.invoices.len()
    }

    /// Identifiers of the invoices in status `status`, in upload order.
    pub fn get_invoices_by_status(&self, status: InvoiceStatus) -> (r: Vec<InvoiceId>)
        ensures
            r@ == ids_with_status(self.stored(), status),
    {
        let mut out: Vec<InvoiceId> = Vec::new();
        let mut i: usize = 0;
        while i < self.invoices.len()
            invariant
                0 <= i <= self.invoices@.len(),
                out@ == ids_with_status(self.invoices@.take(i as int), status),
            decreases self.invoices@.len() - i,
        {
            proof {
                assert(self.invoices@.take(i + 1).drop_last() =~= self.invoices@.take(i as int));
            }
            if self.invoices[i].status == status {
                out.push(self.invoices[i].id);
            }
            i = i + 1;
        }
        proof {
            assert(self.invoices@.take(i as int) =~= self.invoices@);
        }
        out
    }
}

/// Whether the per-status counts of `registry` add up to its total count;
/// always the case.
pub fn assert_counts_invariant(registry: &InvoiceRegistry) -> (r: bool)
    ensures
        r,
{
    let total = registry.get_total_invoice_count();
    let pending = registry.get_invoice_count_by_status(InvoiceStatus::Pending);
    let verified = registry.get_invoice_count_by_status(InvoiceStatus::Verified);
    let funded = registry.get_invoice_count_by_status(InvoiceStatus::Funded);
    let paid = registry.get_invoice_count_by_status(InvoiceStatus::Paid);
    let defaulted = registry.get_invoice_count_by_status(InvoiceStatus::Defaulted);
    let cancelled = registry.get_invoice_count_by_status(InvoiceStatus::Cancelled);
    let refunded = registry.get_invoice_count_by_status(InvoiceStatus::Refunded);
    proof {
        lemma_status_counts_partition(registry.stored());
    }
    let sum: u128 = pending as u128 + verified as u128 + funded as u128 + paid as u128
        + defaulted as u128 + cancelled as u128 + refunded as u128;
    sum == total as u128
}

} // verus!
