//! The invoice marketplace: invoices, the bids placed on them, the
//! investments that fund them and the escrow that holds the investors'
//! funds, moved together. Accepting a bid funds its invoice and opens an
//! investment; settling, defaulting, refunding or cancelling the invoice
//! closes the investment. Disputes on invoices are kept alongside. Token
//! movements are handed back as transfers to perform; the balances and
//! allowances they depend on are taken as arguments.
use vstd::prelude::*;

use crate::bid::{placement_outcome, Bid, BidStatus, BidStorage, DEFAULT_BID_TTL_DAYS};
use crate::defaults::past_grace;
use crate::dispute::{dispute_outcome, has_dispute, Dispute, DisputeRegistry};
use crate::kyc::{
    applicants_with, application_index, decision_outcome, investment_limit, is_verified,
    submission_outcome, BusinessVerification, VerificationRegistry, VerificationStatus,
};
use crate::protocol_limits::MAX_REJECTION_REASON_LENGTH;
use crate::errors::QuickLendXError;
use crate::invoice_id::{InvoiceId, InvoiceIdAllocator};
use crate::fees::{
    default_structures, effective_fee_bps, platform_fee_on, treasury_of, FeeManager, FeeStructure,
    PlatformFeeConfig, RevenueData, UserVolumeData, DEFAULT_PLATFORM_FEE_BPS, MAX_FEE_BPS,
};
use crate::investment::{Investment, InvestmentStatus};
use crate::investment_storage::{has_id, InvestmentStorage};
use crate::invoice::{
    average_rating_of, has_invoice, highest_rating, lowest_rating, rating_error, status_move_outcome,
    upload_outcome, Invoice, InvoiceCategory, InvoiceRegistry,
    InvoiceStatus,
};
use crate::protocol_limits::tag_views;
use crate::payments::{
    create_escrow, latest_for_invoice, new_escrow, payout_error, refund_escrow, release_escrow,
    transfer_error, transfer_funds, transfer_of, Escrow, EscrowStatus, EscrowStorage, Transfer,
};
use crate::protocol_limits::{
    limits_error, result_of, ProtocolLimits, DEFAULT_GRACE_PERIOD_SECONDS, DEFAULT_MAX_DUE_DATE_DAYS,
    DEFAULT_MAX_INVOICES_PER_BUSINESS, DEFAULT_MIN_INVOICE_AMOUNT,
};
use crate::init::{
    copy_addresses, init_params_error, outcome, same_params, InitializationParams, ProtocolConfig,
    ProtocolInitializer, DEFAULT_FEE_BPS,
};
use crate::Address;

verus! {

/// What settling an invoice moves: the payment in from the business, the
/// split of the payments between investor and platform, and the payout to
/// the investor.
#[derive(Clone, Copy, Debug, PartialEq, Eq, Structural)]
pub struct Settlement {
    pub payment: Option<Transfer>,
    pub investor_return: i128,
    pub platform_fee: i128,
    pub payout: Option<Transfer>,
}

/// How an invoice was funded and what has been paid on it.
#[derive(Clone, Copy, Debug, PartialEq, Eq, Structural)]
pub struct Funding {
    pub invoice_id: InvoiceId,
    pub investor: Address,
    pub funded_amount: i128,
    pub funded_at: u64,
    pub investment_id: u64,
    pub escrow_id: u64,
    pub total_paid: i128,
    pub settled_at: Option<u64>,
}

/// A funding record with the positions of its invoice and investment.
#[derive(Clone, Copy)]
struct FundingEntry {
    record: Funding,
    invoice_pos: usize,
    investment_pos: usize,
}

/// Whether an invoice in status `s` has been funded at some point.
pub open spec fn funded_once(s: InvoiceStatus) -> bool {
    s == InvoiceStatus::Funded || s == InvoiceStatus::Paid || s == InvoiceStatus::Defaulted || s
        == InvoiceStatus::Refunded
}

/// Whether an invoice in status `s` may carry a funding record: it has been
/// funded at some point, or it was cancelled, perhaps after funding.
pub open spec fn may_carry_funding(s: InvoiceStatus) -> bool {
    funded_once(s) || s == InvoiceStatus::Cancelled
}

/// What the marketplace announces when a transition takes place.
#[derive(Clone, Copy, Debug, PartialEq, Eq, Structural)]
pub enum MarketEvent {
    /// An invoice was uploaded.
    InvoiceUploaded { invoice_id: InvoiceId, business: Address },
    /// An invoice was verified.
    InvoiceVerified { invoice_id: InvoiceId },
    /// A bid was placed on an invoice.
    BidPlaced { bid_id: u64, invoice_id: InvoiceId, investor: Address },
    /// A bid was accepted.
    BidAccepted { bid_id: u64, invoice_id: InvoiceId },
    /// An escrow was opened for a funded invoice.
    EscrowCreated { escrow_id: u64, invoice_id: InvoiceId, amount: i128 },
    /// An invoice was funded by an investment.
    InvoiceFunded { invoice_id: InvoiceId, investment_id: u64 },
    /// A funded invoice was defaulted.
    InvoiceDefaulted { invoice_id: InvoiceId },
    /// A funded invoice was settled in full.
    InvoiceSettled { invoice_id: InvoiceId },
    /// An invoice was rated.
    InvoiceRated { invoice_id: InvoiceId, rating: u32, rated_by: Address },
}

/// Position of the invoice with identifier `id` in `s`, or -1.
pub open spec fn invoice_index(s: Seq<Invoice>, id: InvoiceId) -> int
    decreases s.len(),
{
    if s.len() == 0 {
        -1
    } else if s.last().id == id {
        s.len() - 1
    } else {
        invoice_index(s.drop_last(), id)
    }
}

/// Position of the investment with identifier `id` in `m`, or -1.
pub open spec fn investment_index(m: Seq<Investment>, id: u64) -> int
    decreases m.len(),
{
    if m.len() == 0 {
        -1
    } else if m.last().investment_id == id {
        m.len() - 1
    } else {
        investment_index(m.drop_last(), id)
    }
}

/// Position of the funding record of invoice `id` in `f`, or -1.
pub open spec fn funding_index(f: Seq<Funding>, id: InvoiceId) -> int
    decreases f.len(),
{
    if f.len() == 0 {
        -1
    } else if f.last().invoice_id == id {
        f.len() - 1
    } else {
        funding_index(f.drop_last(), id)
    }
}

proof fn lemma_invoice_index(s: Seq<Invoice>, id: InvoiceId)
    ensures
        -1 <= invoice_index(s, id) < s.len(),
        invoice_index(s, id) >= 0 ==> s[invoice_index(s, id)].id == id,
        invoice_index(s, id) == -1 <==> !has_invoice(s, id),
    decreases s.len(),
{
    if s.len() > 0 {
        lemma_invoice_index(s.drop_last(), id);
        if invoice_index(s, id) == -1 && has_invoice(s, id) {
            let w = choose|i: int| 0 <= i < s.len() && (#[trigger] s[i]).id == id;
            assert(s.drop_last()[w].id == id);
        }
        if has_invoice(s.drop_last(), id) {
            let w = choose|i: int| 0 <= i < s.drop_last().len() && (#[trigger] s.drop_last()[i]).id == id;
            assert(s[w].id == id);
        }
    }
}

/// With unique identifiers, the position of an identifier is the one
/// that carries it.
proof fn lemma_invoice_index_unique(s: Seq<Invoice>, p: int)
    requires
        0 <= p < s.len(),
        forall|i: int, j: int|
            0 <= i < s.len() && 0 <= j < s.len() && i != j ==> (#[trigger] s[i]).id != (
            #[trigger] s[j]).id,
    ensures
        invoice_index(s, s[p].id) == p,
{
    lemma_invoice_index(s, s[p].id);
    assert(has_invoice(s, s[p].id));
}

proof fn lemma_investment_index(m: Seq<Investment>, id: u64)
    ensures
        -1 <= investment_index(m, id) < m.len(),
        investment_index(m, id) >= 0 ==> m[investment_index(m, id)].investment_id == id,
        investment_index(m, id) == -1 <==> !has_id(m, id),
    decreases m.len(),
{
    if m.len() > 0 {
        lemma_investment_index(m.drop_last(), id);
        if investment_index(m, id) == -1 && has_id(m, id) {
            let w = choose|i: int| 0 <= i < m.len() && (#[trigger] m[i]).investment_id == id;
            assert(m.drop_last()[w].investment_id == id);
        }
        if has_id(m.drop_last(), id) {
            let w = choose|i: int|
                0 <= i < m.drop_last().len() && (#[trigger] m.drop_last()[i]).investment_id == id;
            assert(m[w].investment_id == id);
        }
    }
}

proof fn lemma_investment_index_unique(m: Seq<Investment>, p: int)
    requires
        0 <= p < m.len(),
        forall|i: int, j: int|
            0 <= i < m.len() && 0 <= j < m.len() && i != j ==> (#[trigger] m[i]).investment_id != (
            #[trigger] m[j]).investment_id,
    ensures
        investment_index(m, m[p].investment_id) == p,
{
    lemma_investment_index(m, m[p].investment_id);
    assert(has_id(m, m[p].investment_id));
}

proof fn lemma_funding_index(f: Seq<Funding>, id: InvoiceId)
    ensures
        -1 <= funding_index(f, id) < f.len(),
        funding_index(f, id) >= 0 ==> f[funding_index(f, id)].invoice_id == id,
        funding_index(f, id) == -1 ==> forall|k: int| 0 <= k < f.len() ==> (#[trigger] f[k]).invoice_id != id,
    decreases f.len(),
{
    if f.len() > 0 {
        lemma_funding_index(f.drop_last(), id);
        assert forall|k: int| 0 <= k < f.len() - 1 implies #[trigger] f[k] == f.drop_last()[k] by {}
    }
}

proof fn lemma_funding_index_unique(f: Seq<Funding>, k: int)
    requires
        0 <= k < f.len(),
        forall|a: int, b: int|
            0 <= a < f.len() && 0 <= b < f.len() && a != b ==> (#[trigger] f[a]).invoice_id != (
            #[trigger] f[b]).invoice_id,
    ensures
        funding_index(f, f[k].invoice_id) == k,
    decreases f.len(),
{
    lemma_funding_index(f, f[k].invoice_id);
}

/// Entry `e` points at its invoice and investment, the investment belongs
/// to that invoice, and it is active exactly while the invoice is funded.
spec fn entry_ok(s: Seq<Invoice>, m: Seq<Investment>, e: FundingEntry) -> bool {
    &&& e.invoice_pos < s.len()
    &&& s[e.invoice_pos as int].id == e.record.invoice_id
    &&& may_carry_funding(s[e.invoice_pos as int].status)
    &&& e.investment_pos < m.len()
    &&& m[e.investment_pos as int].investment_id == e.record.investment_id
    &&& m[e.investment_pos as int].invoice_id == e.record.invoice_id
    &&& m[e.investment_pos as int].investor == e.record.investor
    &&& m[e.investment_pos as int].amount == e.record.funded_amount
    &&& (m[e.investment_pos as int].status == InvestmentStatus::Active <==> s[e.invoice_pos as int].status
        == InvoiceStatus::Funded)
}

/// The funding records and the invoices and investments they link.
spec fn links_ok(s: Seq<Invoice>, m: Seq<Investment>, f: Seq<FundingEntry>) -> bool {
    &&& forall|k: int| 0 <= k < f.len() ==> entry_ok(s, m, #[trigger] f[k])
    &&& forall|a: int, b: int|
        0 <= a < f.len() && 0 <= b < f.len() && a != b ==> (#[trigger] f[a]).invoice_pos != (
        #[trigger] f[b]).invoice_pos && f[a].investment_pos != f[b].investment_pos
    &&& forall|p: int|
        0 <= p < s.len() && funded_once((#[trigger] s[p]).status) ==> exists|k: int|
            0 <= k < f.len() && (#[trigger] f[k]).invoice_pos == p
}

/// Changing the status of a pending or verified invoice to a status that
/// is not funded keeps the links.
proof fn lemma_links_unfunded_move(
    s: Seq<Invoice>,
    m: Seq<Investment>,
    f: Seq<FundingEntry>,
    p: int,
    to: InvoiceStatus,
)
    requires
        links_ok(s, m, f),
        0 <= p < s.len(),
        s[p].status == InvoiceStatus::Pending || s[p].status == InvoiceStatus::Verified,
        !funded_once(to),
    ensures
        links_ok(s.update(p, Invoice { status: to, ..s[p] }), m, f),
{
    let s2 = s.update(p, Invoice { status: to, ..s[p] });
    assert forall|k: int| 0 <= k < f.len() implies entry_ok(s2, m, #[trigger] f[k]) by {
        assert(entry_ok(s, m, f[k]));
        assert(f[k].invoice_pos != p);
    }
    assert forall|q: int|
        0 <= q < s2.len() && funded_once((#[trigger] s2[q]).status) implies exists|k: int|
        0 <= k < f.len() && (#[trigger] f[k]).invoice_pos == q by {
        assert(q != p);
        assert(s2[q] == s[q]);
    }
}

/// Adding an invoice that was never funded keeps the links.
proof fn lemma_links_push_invoice(s: Seq<Invoice>, m: Seq<Investment>, f: Seq<FundingEntry>, inv: Invoice)
    requires
        links_ok(s, m, f),
        !funded_once(inv.status),
    ensures
        links_ok(s.push(inv), m, f),
{
    let s2 = s.push(inv);
    assert forall|k: int| 0 <= k < f.len() implies entry_ok(s2, m, #[trigger] f[k]) by {
        assert(entry_ok(s, m, f[k]));
        assert(s2[f[k].invoice_pos as int] == s[f[k].invoice_pos as int]);
    }
    assert forall|q: int|
        0 <= q < s2.len() && funded_once((#[trigger] s2[q]).status) implies exists|k: int|
        0 <= k < f.len() && (#[trigger] f[k]).invoice_pos == q by {
        assert(q < s.len());
        assert(s2[q] == s[q]);
    }
}

/// Changing an invoice in a way that keeps its identifier and status keeps
/// the links.
proof fn lemma_links_same_status(s: Seq<Invoice>, m: Seq<Investment>, f: Seq<FundingEntry>, p: int, x: Invoice)
    requires
        links_ok(s, m, f),
        0 <= p < s.len(),
        x.id == s[p].id,
        x.status == s[p].status,
    ensures
        links_ok(s.update(p, x), m, f),
{
    let s2 = s.update(p, x);
    assert forall|k: int| 0 <= k < f.len() implies entry_ok(s2, m, #[trigger] f[k]) by {
        assert(entry_ok(s, m, f[k]));
    }
    assert forall|q: int|
        0 <= q < s2.len() && funded_once((#[trigger] s2[q]).status) implies exists|k: int|
        0 <= k < f.len() && (#[trigger] f[k]).invoice_pos == q by {
        assert(funded_once(s[q].status));
    }
}

/// Why accepting bid `bid_id` on invoice `invoice_id` at `now` is refused
/// before any token is looked at: no such invoice, an invoice that is not
/// verified, no such bid, or a bid for another invoice, no longer placed or
/// past its expiration.
pub open spec fn accept_error(s: Seq<Invoice>, b: Seq<Bid>, invoice_id: InvoiceId, bid_id: u64, now: u64) -> Option<
    QuickLendXError,
> {
    let p = invoice_index(s, invoice_id);
    if p < 0 {
        Some(QuickLendXError::InvoiceNotFound)
    } else if s[p].status != InvoiceStatus::Verified {
        Some(QuickLendXError::InvalidStatus)
    } else if bid_id >= b.len() {
        Some(QuickLendXError::StorageKeyNotFound)
    } else if b[bid_id as int].invoice_id != invoice_id || b[bid_id as int].status != BidStatus::Placed
        || now > b[bid_id as int].expiration_timestamp {
        Some(QuickLendXError::InvalidStatus)
    } else {
        None
    }
}

/// Accepting a bid funds its invoice: a new funding record keeps the
/// links.
proof fn lemma_links_fund(
    s: Seq<Invoice>,
    m: Seq<Investment>,
    f: Seq<FundingEntry>,
    p: int,
    inv: Investment,
    e: FundingEntry,
)
    requires
        links_ok(s, m, f),
        0 <= p < s.len(),
        s[p].status == InvoiceStatus::Verified,
        e.invoice_pos == p,
        e.investment_pos == m.len(),
        s[p].id == e.record.invoice_id,
        inv.investment_id == e.record.investment_id,
        inv.invoice_id == e.record.invoice_id,
        inv.investor == e.record.investor,
        inv.amount == e.record.funded_amount,
        inv.status == InvestmentStatus::Active,
    ensures
        links_ok(s.update(p, Invoice { status: InvoiceStatus::Funded, ..s[p] }), m.push(inv), f.push(e)),
{
    let s2 = s.update(p, Invoice { status: InvoiceStatus::Funded, ..s[p] });
    let m2 = m.push(inv);
    let f2 = f.push(e);
    assert forall|k: int| 0 <= k < f2.len() implies entry_ok(s2, m2, #[trigger] f2[k]) by {
        if k < f.len() {
            assert(f2[k] == f[k]);
            assert(entry_ok(s, m, f[k]));
            assert(f[k].invoice_pos != p);
            assert(m2[f[k].investment_pos as int] == m[f[k].investment_pos as int]);
        }
    }
    assert forall|a: int, b: int|
        0 <= a < f2.len() && 0 <= b < f2.len() && a != b implies (#[trigger] f2[a]).invoice_pos != (
    #[trigger] f2[b]).invoice_pos && f2[a].investment_pos != f2[b].investment_pos by {
        if a < f.len() {
            assert(entry_ok(s, m, f[a]));
        }
        if b < f.len() {
            assert(entry_ok(s, m, f[b]));
        }
    }
    assert forall|q: int|
        0 <= q < s2.len() && funded_once((#[trigger] s2[q]).status) implies exists|k: int|
        0 <= k < f2.len() && (#[trigger] f2[k]).invoice_pos == q by {
        if q == p {
            assert(f2[f.len() as int].invoice_pos == q);
        } else {
            assert(s2[q] == s[q]);
            let k = choose|k: int| 0 <= k < f.len() && (#[trigger] f[k]).invoice_pos == q;
            assert(f2[k] == f[k]);
        }
    }
}

/// Closing a funded invoice (to paid, defaulted, refunded or cancelled)
/// together with its investment keeps the links.
proof fn lemma_links_close(
    s: Seq<Invoice>,
    m: Seq<Investment>,
    f: Seq<FundingEntry>,
    k: int,
    invoice_to: InvoiceStatus,
    investment_to: InvestmentStatus,
)
    requires
        links_ok(s, m, f),
        0 <= k < f.len(),
        may_carry_funding(invoice_to),
        invoice_to != InvoiceStatus::Funded,
        investment_to != InvestmentStatus::Active,
    ensures
        links_ok(
            s.update(f[k].invoice_pos as int, Invoice { status: invoice_to, ..s[f[k].invoice_pos as int] }),
            m.update(
                f[k].investment_pos as int,
                Investment { status: investment_to, ..m[f[k].investment_pos as int] },
            ),
            f,
        ),
{
    let p = f[k].invoice_pos as int;
    let ip = f[k].investment_pos as int;
    let s2 = s.update(p, Invoice { status: invoice_to, ..s[p] });
    let m2 = m.update(ip, Investment { status: investment_to, ..m[ip] });
    assert(entry_ok(s, m, f[k]));
    assert forall|j: int| 0 <= j < f.len() implies entry_ok(s2, m2, #[trigger] f[j]) by {
        assert(entry_ok(s, m, f[j]));
        if j != k {
            assert(f[j].invoice_pos != p && f[j].investment_pos != ip);
        }
    }
    assert forall|q: int|
        0 <= q < s2.len() && funded_once((#[trigger] s2[q]).status) implies exists|j: int|
        0 <= j < f.len() && (#[trigger] f[j]).invoice_pos == q by {
        if q == p {
            assert(f[k].invoice_pos == q);
        } else {
            assert(s2[q] == s[q]);
        }
    }
}

/// Changing what a funding record says of payments keeps the links.
proof fn lemma_links_record(s: Seq<Invoice>, m: Seq<Investment>, f: Seq<FundingEntry>, k: int, rec: Funding)
    requires
        links_ok(s, m, f),
        0 <= k < f.len(),
        rec.invoice_id == f[k].record.invoice_id,
        rec.investment_id == f[k].record.investment_id,
        rec.investor == f[k].record.investor,
        rec.funded_amount == f[k].record.funded_amount,
    ensures
        links_ok(s, m, f.update(k, FundingEntry { record: rec, ..f[k] })),
{
    let f2 = f.update(k, FundingEntry { record: rec, ..f[k] });
    assert forall|j: int| 0 <= j < f2.len() implies entry_ok(s, m, #[trigger] f2[j]) by {
        assert(entry_ok(s, m, f[j]));
    }
    assert forall|q: int|
        0 <= q < s.len() && funded_once((#[trigger] s[q]).status) implies exists|j: int|
        0 <= j < f2.len() && (#[trigger] f2[j]).invoice_pos == q by {
        let j = choose|j: int| 0 <= j < f.len() && (#[trigger] f[j]).invoice_pos == q;
        assert(f2[j].invoice_pos == q);
    }
}

/// Funded invoices are recorded once each: different records name
/// different invoices.
proof fn lemma_records_distinct(s: Seq<Invoice>, m: Seq<Investment>, f: Seq<FundingEntry>)
    requires
        links_ok(s, m, f),
        forall|i: int, j: int|
            0 <= i < s.len() && 0 <= j < s.len() && i != j ==> (#[trigger] s[i]).id != (
            #[trigger] s[j]).id,
    ensures
        forall|a: int, b: int|
            0 <= a < f.len() && 0 <= b < f.len() && a != b ==> (#[trigger] f[a]).record.invoice_id
                != (#[trigger] f[b]).record.invoice_id,
{
    assert forall|a: int, b: int|
        0 <= a < f.len() && 0 <= b < f.len() && a != b implies (#[trigger] f[a]).record.invoice_id
        != (#[trigger] f[b]).record.invoice_id by {
        assert(entry_ok(s, m, f[a]));
        assert(entry_ok(s, m, f[b]));
        assert(s[f[a].invoice_pos as int].id != s[f[b].invoice_pos as int].id);
    }
}

/// Number of invoices of `s` that are funded and whose grace period of
/// `grace` seconds after the due date has passed at `now`.
pub open spec fn past_grace_count(s: Seq<Invoice>, grace: u64, now: u64) -> nat
    decreases s.len(),
{
    if s.len() == 0 {
        0
    } else {
        past_grace_count(s.drop_last(), grace, now) + if past_grace(s.last(), grace, now) {
            1nat
        } else {
            0nat
        }
    }
}

/// Whether a sweep that defaults at most `limit` invoices, taking them in
/// upload order, defaults the invoice at position `p` of `s`: it is past
/// its grace period and fewer than `limit` invoices before it are.
pub open spec fn swept(s: Seq<Invoice>, p: int, grace: u64, now: u64, limit: nat) -> bool {
    past_grace(s[p], grace, now) && past_grace_count(s.take(p), grace, now) < limit
}

/// Invoice positions below `i` that the sweep has defaulted so far, as
/// seen from the invoices `cur` it has left.
#[verifier::opaque]
spec fn sweep_invoices_done(
    cur: Seq<Invoice>,
    s: Seq<Invoice>,
    i: int,
    grace: u64,
    now: u64,
    limit: nat,
) -> bool {
    &&& cur.len() == s.len()
    &&& forall|p: int|
        #![trigger cur[p]]
        0 <= p < s.len() ==> cur[p] == if p < i && swept(s, p, grace, now, limit) {
            Invoice { status: InvoiceStatus::Defaulted, ..s[p] }
        } else {
            s[p]
        }
}

/// The investments `cur` the sweep has left once it has handled the
/// invoices below position `i`.
#[verifier::opaque]
spec fn sweep_investments_done(
    cur: Seq<Investment>,
    m: Seq<Investment>,
    f: Seq<FundingEntry>,
    s: Seq<Invoice>,
    i: int,
    grace: u64,
    now: u64,
    limit: nat,
) -> bool {
    &&& cur.len() == m.len()
    &&& forall|j: int|
        #![trigger f[j]]
        0 <= j < f.len() ==> cur[f[j].investment_pos as int] == if f[j].invoice_pos < i && swept(
            s,
            f[j].invoice_pos as int,
            grace,
            now,
            limit,
        ) {
            Investment { status: InvestmentStatus::Defaulted, ..m[f[j].investment_pos as int] }
        } else {
            m[f[j].investment_pos as int]
        }
    &&& forall|q: int|
        #![trigger cur[q]]
        0 <= q < m.len() && (forall|j: int| 0 <= j < f.len() ==> (#[trigger] f[j]).investment_pos != q)
            ==> cur[q] == m[q]
}

/// The index of active investments `cur` the sweep has left once it has
/// handled the invoices below position `i`.
#[verifier::opaque]
spec fn sweep_active_done(
    cur: Seq<u64>,
    a: Seq<u64>,
    f: Seq<FundingEntry>,
    s: Seq<Invoice>,
    i: int,
    grace: u64,
    now: u64,
    limit: nat,
) -> bool {
    &&& forall|j: int|
        #![trigger f[j]]
        0 <= j < f.len() && f[j].invoice_pos < i && swept(s, f[j].invoice_pos as int, grace, now, limit)
            ==> !cur.contains(f[j].record.investment_id)
    &&& forall|x: u64|
        #![trigger cur.contains(x)]
        (forall|j: int|
            0 <= j < f.len() && (#[trigger] f[j]).invoice_pos < i && swept(
                s,
                f[j].invoice_pos as int,
                grace,
                now,
                limit,
            ) ==> f[j].record.investment_id != x) ==> (cur.contains(x) <==> a.contains(x))
}

/// The grace period in force: the one given, else the one in the protocol
/// limits `limits`.
pub open spec fn grace_in_force(grace: Option<u64>, limits: ProtocolLimits) -> u64 {
    match grace {
        Some(g) => g,
        None => limits.grace_period_seconds,
    }
}

/// What a sweep with grace period `g` and at most `limit` defaults at `now`
/// does to the invoices
/// `s`, investments `m`, funding records `f` and active index `a`, leaving
/// `fs`, `fm` and `fa` and answering `r`: the invoices that `swept` names
/// are defaulted, each with the investment of its funding record, which
/// leaves the active index; everything else is unchanged, and `r` counts
/// the defaulted invoices.
pub open spec fn sweep_outcome(
    s: Seq<Invoice>,
    m: Seq<Investment>,
    f: Seq<Funding>,
    a: Seq<u64>,
    fs: Seq<Invoice>,
    fm: Seq<Investment>,
    fa: Seq<u64>,
    g: u64,
    limit: u32,
    now: u64,
    r: u32,
) -> bool {
    let n = past_grace_count(s, g, now);
    &&& r == if n < limit {
        n
    } else {
        limit as nat
    }
    &&& fs.len() == s.len()
    &&& forall|p: int|
        0 <= p < s.len() ==> #[trigger] fs[p] == if swept(s, p, g, now, limit as nat) {
            Invoice { status: InvoiceStatus::Defaulted, ..s[p] }
        } else {
            s[p]
        }
    &&& fm.len() == m.len()
    &&& forall|k: int|
        #![trigger f[k]]
        0 <= k < f.len() ==> {
            let p = invoice_index(s, f[k].invoice_id);
            let q = investment_index(m, f[k].investment_id);
            &&& 0 <= p < s.len()
            &&& 0 <= q < m.len()
            &&& fm[q] == if swept(s, p, g, now, limit as nat) {
                Investment { status: InvestmentStatus::Defaulted, ..m[q] }
            } else {
                m[q]
            }
            &&& swept(s, p, g, now, limit as nat) ==> !fa.contains(f[k].investment_id)
        }
    &&& forall|q: int|
        0 <= q < m.len() && (forall|k: int|
            0 <= k < f.len() ==> investment_index(m, (#[trigger] f[k]).investment_id) != q) ==> #[trigger] fm[q]
            == m[q]
    &&& forall|x: u64|
        (forall|k: int|
            0 <= k < f.len() && swept(s, invoice_index(s, (#[trigger] f[k]).invoice_id), g, now, limit as nat)
                ==> f[k].investment_id != x) ==> (#[trigger] fa.contains(x) <==> a.contains(x))
}

/// `after` extends `before` by the defaults of invoices of `s` that a sweep
/// with grace period `g` and at most `lim` defaults at `now` takes.
#[verifier::opaque]
pub open spec fn defaults_announced(
    before: Seq<MarketEvent>,
    after: Seq<MarketEvent>,
    s: Seq<Invoice>,
    g: u64,
    now: u64,
    lim: nat,
) -> bool {
    &&& before.len() <= after.len()
    &&& forall|j: int| 0 <= j < before.len() ==> #[trigger] after[j] == before[j]
    &&& forall|j: int|
        before.len() <= j < after.len() ==> exists|p: int|
            0 <= p < s.len() && #[trigger] after[j] == (MarketEvent::InvoiceDefaulted {
                invoice_id: s[p].id,
            }) && swept(s, p, g, now, lim)
}

/// Recording the default of the swept invoice at position `i` keeps the
/// record of defaults.
proof fn lemma_default_event_recorded(
    base: Seq<MarketEvent>,
    before: Seq<MarketEvent>,
    after: Seq<MarketEvent>,
    s: Seq<Invoice>,
    i: int,
    g: u64,
    now: u64,
    lim: nat,
)
    requires
        0 <= i < s.len(),
        swept(s, i, g, now, lim),
        after == before.push(MarketEvent::InvoiceDefaulted { invoice_id: s[i].id }),
        defaults_announced(base, before, s, g, now, lim),
    ensures
        defaults_announced(base, after, s, g, now, lim),
{
    reveal(defaults_announced);
    assert forall|j: int| base.len() <= j < after.len() implies exists|p: int|
        0 <= p < s.len() && #[trigger] after[j] == (MarketEvent::InvoiceDefaulted {
            invoice_id: s[p].id,
        }) && swept(s, p, g, now, lim) by {
        if j < before.len() {
            assert(after[j] == before[j]);
        } else {
            assert(after[j] == (MarketEvent::InvoiceDefaulted { invoice_id: s[i].id }));
        }
    }
    assert forall|j: int| 0 <= j < base.len() implies #[trigger] after[j] == base[j] by {
        assert(after[j] == before[j]);
    }
}

proof fn lemma_past_grace_count_step(s: Seq<Invoice>, i: int, g: u64, now: u64)
    requires
        0 <= i < s.len(),
    ensures
        past_grace_count(s.take(i + 1), g, now) == past_grace_count(s.take(i), g, now) + if past_grace(
            s[i],
            g,
            now,
        ) {
            1nat
        } else {
            0nat
        },
{
    assert(s.take(i + 1).drop_last() =~= s.take(i));
    assert(s.take(i + 1).last() == s[i]);
}

proof fn lemma_sweep_start(
    s: Seq<Invoice>,
    m: Seq<Investment>,
    f: Seq<FundingEntry>,
    a: Seq<u64>,
    g: u64,
    now: u64,
    lim: nat,
)
    ensures
        sweep_invoices_done(s, s, 0, g, now, lim),
        sweep_investments_done(m, m, f, s, 0, g, now, lim),
        sweep_active_done(a, a, f, s, 0, g, now, lim),
        past_grace_count(s.take(0), g, now) == 0,
{
    reveal(sweep_invoices_done);
    reveal(sweep_investments_done);
    reveal(sweep_active_done);
    assert(s.take(0) =~= Seq::<Invoice>::empty());
}

proof fn lemma_sweep_pending(cs: Seq<Invoice>, s: Seq<Invoice>, i: int, g: u64, now: u64, lim: nat)
    requires
        0 <= i < s.len(),
        sweep_invoices_done(cs, s, i, g, now, lim),
    ensures
        cs.len() == s.len(),
        cs[i] == s[i],
{
    reveal(sweep_invoices_done);
}

proof fn lemma_sweep_step_skip(
    s: Seq<Invoice>,
    m: Seq<Investment>,
    f: Seq<FundingEntry>,
    a: Seq<u64>,
    cs: Seq<Invoice>,
    cm: Seq<Investment>,
    ca: Seq<u64>,
    i: int,
    g: u64,
    now: u64,
    lim: nat,
)
    requires
        0 <= i < s.len(),
        !swept(s, i, g, now, lim),
        sweep_invoices_done(cs, s, i, g, now, lim),
        sweep_investments_done(cm, m, f, s, i, g, now, lim),
        sweep_active_done(ca, a, f, s, i, g, now, lim),
    ensures
        sweep_invoices_done(cs, s, i + 1, g, now, lim),
        sweep_investments_done(cm, m, f, s, i + 1, g, now, lim),
        sweep_active_done(ca, a, f, s, i + 1, g, now, lim),
{
    reveal(sweep_invoices_done);
    reveal(sweep_investments_done);
    reveal(sweep_active_done);
    assert forall|p: int| 0 <= p < s.len() implies #[trigger] cs[p] == if p < i + 1 && swept(
        s,
        p,
        g,
        now,
        lim,
    ) {
        Invoice { status: InvoiceStatus::Defaulted, ..s[p] }
    } else {
        s[p]
    } by {}
    assert forall|j: int| #![trigger f[j]] 0 <= j < f.len() implies cm[f[j].investment_pos as int]
        == if f[j].invoice_pos < i + 1 && swept(s, f[j].invoice_pos as int, g, now, lim) {
        Investment { status: InvestmentStatus::Defaulted, ..m[f[j].investment_pos as int] }
    } else {
        m[f[j].investment_pos as int]
    } by {}
    assert forall|x: u64|
        (forall|j: int|
            0 <= j < f.len() && (#[trigger] f[j]).invoice_pos < i + 1 && swept(
                s,
                f[j].invoice_pos as int,
                g,
                now,
                lim,
            ) ==> f[j].record.investment_id != x) implies (#[trigger] ca.contains(x) <==> a.contains(x)) by {
        assert forall|j: int|
            0 <= j < f.len() && (#[trigger] f[j]).invoice_pos < i && swept(
                s,
                f[j].invoice_pos as int,
                g,
                now,
                lim,
            ) implies f[j].record.investment_id != x by {}
    }
}

proof fn lemma_sweep_step_default(
    s: Seq<Invoice>,
    m: Seq<Investment>,
    f: Seq<FundingEntry>,
    a: Seq<u64>,
    cs: Seq<Invoice>,
    cm: Seq<Investment>,
    ca: Seq<u64>,
    ns: Seq<Invoice>,
    nm: Seq<Investment>,
    na: Seq<u64>,
    i: int,
    k: int,
    g: u64,
    now: u64,
    lim: nat,
)
    requires
        0 <= i < s.len(),
        0 <= k < f.len(),
        f[k].invoice_pos == i,
        links_ok(s, m, f),
        swept(s, i, g, now, lim),
        sweep_invoices_done(cs, s, i, g, now, lim),
        sweep_investments_done(cm, m, f, s, i, g, now, lim),
        sweep_active_done(ca, a, f, s, i, g, now, lim),
        ns == cs.update(i, Invoice { status: InvoiceStatus::Defaulted, ..cs[i] }),
        nm == cm.update(
            f[k].investment_pos as int,
            Investment { status: InvestmentStatus::Defaulted, ..cm[f[k].investment_pos as int] },
        ),
        !na.contains(f[k].record.investment_id),
        forall|x: u64| x != f[k].record.investment_id ==> (na.contains(x) <==> ca.contains(x)),
    ensures
        sweep_invoices_done(ns, s, i + 1, g, now, lim),
        sweep_investments_done(nm, m, f, s, i + 1, g, now, lim),
        sweep_active_done(na, a, f, s, i + 1, g, now, lim),
{
    reveal(sweep_invoices_done);
    reveal(sweep_investments_done);
    reveal(sweep_active_done);
    let e = f[k];
    assert(entry_ok(s, m, e));
    assert(cs[i] == s[i]);
    assert forall|p: int| 0 <= p < s.len() implies #[trigger] ns[p] == if p < i + 1 && swept(
        s,
        p,
        g,
        now,
        lim,
    ) {
        Invoice { status: InvoiceStatus::Defaulted, ..s[p] }
    } else {
        s[p]
    } by {
        assert(cs[p] == if p < i && swept(s, p, g, now, lim) {
            Invoice { status: InvoiceStatus::Defaulted, ..s[p] }
        } else {
            s[p]
        });
    }
    assert(cm[e.investment_pos as int] == m[e.investment_pos as int]);
    assert forall|j: int| #![trigger f[j]] 0 <= j < f.len() implies nm[f[j].investment_pos as int]
        == if f[j].invoice_pos < i + 1 && swept(s, f[j].invoice_pos as int, g, now, lim) {
        Investment { status: InvestmentStatus::Defaulted, ..m[f[j].investment_pos as int] }
    } else {
        m[f[j].investment_pos as int]
    } by {
        if j != k {
            assert(f[j].investment_pos != e.investment_pos);
            assert(f[j].invoice_pos != e.invoice_pos);
        }
    }
    assert forall|q: int|
        #![trigger nm[q]]
        0 <= q < m.len() && (forall|j: int| 0 <= j < f.len() ==> (#[trigger] f[j]).investment_pos != q)
            implies nm[q] == m[q] by {
        assert(f[k].investment_pos != q);
        assert(cm[q] == m[q]);
    }
    assert forall|j: int|
        #![trigger f[j]]
        0 <= j < f.len() && f[j].invoice_pos < i + 1 && swept(s, f[j].invoice_pos as int, g, now, lim)
            implies !na.contains(f[j].record.investment_id) by {
        if j != k {
            assert(f[j].invoice_pos != e.invoice_pos);
            if f[j].record.investment_id != e.record.investment_id {
                assert(!ca.contains(f[j].record.investment_id));
            }
        }
    }
    assert forall|x: u64|
        (forall|j: int|
            0 <= j < f.len() && (#[trigger] f[j]).invoice_pos < i + 1 && swept(
                s,
                f[j].invoice_pos as int,
                g,
                now,
                lim,
            ) ==> f[j].record.investment_id != x) implies (#[trigger] na.contains(x) <==> a.contains(x)) by {
        assert(f[k].record.investment_id != x);
        assert forall|j: int|
            0 <= j < f.len() && (#[trigger] f[j]).invoice_pos < i && swept(
                s,
                f[j].invoice_pos as int,
                g,
                now,
                lim,
            ) implies f[j].record.investment_id != x by {}
        assert(ca.contains(x) <==> a.contains(x));
    }
}

proof fn lemma_sweep_finish(
    s: Seq<Invoice>,
    m: Seq<Investment>,
    f: Seq<FundingEntry>,
    a: Seq<u64>,
    cs: Seq<Invoice>,
    cm: Seq<Investment>,
    ca: Seq<u64>,
    g: u64,
    now: u64,
    lim: nat,
    count: u32,
)
    requires
        lim <= u32::MAX,
        links_ok(s, m, f),
        forall|i: int, j: int|
            0 <= i < s.len() && 0 <= j < s.len() && i != j ==> (#[trigger] s[i]).id != (
            #[trigger] s[j]).id,
        crate::investment_storage::ids_unique(m),
        sweep_invoices_done(cs, s, s.len() as int, g, now, lim),
        sweep_investments_done(cm, m, f, s, s.len() as int, g, now, lim),
        sweep_active_done(ca, a, f, s, s.len() as int, g, now, lim),
        count == if past_grace_count(s.take(s.len() as int), g, now) < lim {
            past_grace_count(s.take(s.len() as int), g, now)
        } else {
            lim
        },
    ensures
        sweep_outcome(
            s,
            m,
            f.map_values(|e: FundingEntry| e.record),
            a,
            cs,
            cm,
            ca,
            g,
            lim as u32,
            now,
            count,
        ),
{
    reveal(sweep_invoices_done);
    reveal(sweep_investments_done);
    reveal(sweep_active_done);
    assert(s.take(s.len() as int) =~= s);
    let fr = f.map_values(|e: FundingEntry| e.record);
    assert forall|k: int| 0 <= k < f.len() implies invoice_index(s, #[trigger] f[k].record.invoice_id)
        == f[k].invoice_pos && investment_index(m, f[k].record.investment_id) == f[k].investment_pos by {
        assert(entry_ok(s, m, f[k]));
        lemma_invoice_index_unique(s, f[k].invoice_pos as int);
        lemma_investment_index_unique(m, f[k].investment_pos as int);
    }
    assert forall|k: int| #![trigger fr[k]] 0 <= k < fr.len() implies {
        let p = invoice_index(s, fr[k].invoice_id);
        let q = investment_index(m, fr[k].investment_id);
        &&& 0 <= p < s.len()
        &&& 0 <= q < m.len()
        &&& cm[q] == if swept(s, p, g, now, lim) {
            Investment { status: InvestmentStatus::Defaulted, ..m[q] }
        } else {
            m[q]
        }
        &&& swept(s, p, g, now, lim) ==> !ca.contains(fr[k].investment_id)
    } by {
        assert(fr[k] == f[k].record);
        assert(entry_ok(s, m, f[k]));
    }
    assert forall|q: int|
        0 <= q < m.len() && (forall|k: int|
            0 <= k < fr.len() ==> investment_index(m, (#[trigger] fr[k]).investment_id) != q) implies #[trigger] cm[q]
        == m[q] by {
        assert forall|j: int| 0 <= j < f.len() implies (#[trigger] f[j]).investment_pos != q by {
            assert(fr[j] == f[j].record);
        }
    }
    assert forall|x: u64|
        (forall|k: int|
            0 <= k < fr.len() && swept(s, invoice_index(s, (#[trigger] fr[k]).invoice_id), g, now, lim)
                ==> fr[k].investment_id != x) implies (#[trigger] ca.contains(x) <==> a.contains(x)) by {
        assert forall|j: int|
            0 <= j < f.len() && (#[trigger] f[j]).invoice_pos < s.len() && swept(
                s,
                f[j].invoice_pos as int,
                g,
                now,
                lim,
            ) implies f[j].record.investment_id != x by {
            assert(fr[j] == f[j].record);
        }
    }
}

/// The result `r` of an operation that may hand back a transfer, without
/// the transfer.
pub open spec fn without_transfer(r: Result<Option<Transfer>, QuickLendXError>) -> Result<(), QuickLendXError> {
    match r {
        Ok(_) => Ok(()),
        Err(e) => Err(e),
    }
}

/// What refunding the escrow of funded invoice `invoice_id` to its investor
/// does, the protocol `c` holding `contract_balance`, to the invoices `s`,
/// investments `m`, escrows `es` and active index `a` (funding records
/// `f`), leaving `fs`, `fm`, `fes` and `fa` and answering `r`:
/// `InvoiceNotFound`, `InvalidStatus` for an invoice that is not funded,
/// or as `payout_error` says; otherwise the escrow is refunded, the invoice
/// closes to `invoice_to`, its investment is refunded and leaves the active
/// index, and the transfer from the protocol to the investor is returned
/// (none when they are the same account). Nothing changes on failure.
pub open spec fn escrow_refund_outcome(
    s: Seq<Invoice>,
    m: Seq<Investment>,
    f: Seq<Funding>,
    es: Seq<Escrow>,
    a: Seq<u64>,
    c: Address,
    fs: Seq<Invoice>,
    fm: Seq<Investment>,
    fes: Seq<Escrow>,
    fa: Seq<u64>,
    invoice_id: InvoiceId,
    contract_balance: i128,
    invoice_to: InvoiceStatus,
    r: Result<Option<Transfer>, QuickLendXError>,
) -> bool {
    let p = invoice_index(s, invoice_id);
    let k = funding_index(f, invoice_id);
    let q = investment_index(m, f[k].investment_id);
    let x = latest_for_invoice(es, invoice_id)->0;
    let perr = payout_error(es, invoice_id, c, es[x].investor, contract_balance);
    &&& p < 0 ==> r == Err::<Option<Transfer>, QuickLendXError>(QuickLendXError::InvoiceNotFound)
    &&& p >= 0 && s[p].status != InvoiceStatus::Funded ==> r == Err::<Option<Transfer>, QuickLendXError>(
        QuickLendXError::InvalidStatus,
    )
    &&& p >= 0 && s[p].status == InvoiceStatus::Funded ==> (perr matches Some(e) ==> r == Err::<
        Option<Transfer>,
        QuickLendXError,
    >(e))
    &&& r is Ok <==> p >= 0 && s[p].status == InvoiceStatus::Funded && perr is None
    &&& r is Err ==> fs == s && fm == m && fa == a && fes == es
    &&& r is Ok ==> {
        &&& r == Ok::<Option<Transfer>, QuickLendXError>(
            if c == es[x].investor {
                None
            } else {
                Some(transfer_of(c, c, es[x].investor, es[x].amount))
            },
        )
        &&& fes == es.update(x, Escrow { status: EscrowStatus::Refunded, ..es[x] })
        &&& fs == s.update(p, Invoice { status: invoice_to, ..s[p] })
        &&& fm == m.update(q, Investment { status: InvestmentStatus::Refunded, ..m[q] })
        &&& !fa.contains(f[k].investment_id)
        &&& forall|y: u64| y != f[k].investment_id ==> (fa.contains(y) <==> a.contains(y))
    }
}

/// A refund happens once: after the escrow of an invoice has been refunded
/// (its invoice closing to refunded or cancelled), a further refund of that
/// invoice, whether to refund or cancel it, is refused with `InvalidStatus`
/// and changes nothing.
pub proof fn lemma_refund_happens_once(
    s: Seq<Invoice>,
    m: Seq<Investment>,
    f: Seq<Funding>,
    es: Seq<Escrow>,
    a: Seq<u64>,
    c: Address,
    s1: Seq<Invoice>,
    m1: Seq<Investment>,
    es1: Seq<Escrow>,
    a1: Seq<u64>,
    s2: Seq<Invoice>,
    m2: Seq<Investment>,
    es2: Seq<Escrow>,
    a2: Seq<u64>,
    invoice_id: InvoiceId,
    balance1: i128,
    balance2: i128,
    to1: InvoiceStatus,
    to2: InvoiceStatus,
    r1: Result<Option<Transfer>, QuickLendXError>,
    r2: Result<Option<Transfer>, QuickLendXError>,
)
    requires
        forall|i: int, j: int|
            0 <= i < s.len() && 0 <= j < s.len() && i != j ==> (#[trigger] s[i]).id != (
            #[trigger] s[j]).id,
        to1 == InvoiceStatus::Refunded || to1 == InvoiceStatus::Cancelled,
        escrow_refund_outcome(s, m, f, es, a, c, s1, m1, es1, a1, invoice_id, balance1, to1, r1),
        r1 is Ok,
        escrow_refund_outcome(s1, m1, f, es1, a1, c, s2, m2, es2, a2, invoice_id, balance2, to2, r2),
    ensures
        r2 == Err::<Option<Transfer>, QuickLendXError>(QuickLendXError::InvalidStatus),
        s2 == s1,
        m2 == m1,
        es2 == es1,
        a2 == a1,
{
    let p = invoice_index(s, invoice_id);
    lemma_invoice_index(s, invoice_id);
    assert(s1 == s.update(p, Invoice { status: to1, ..s[p] }));
    assert forall|i: int, j: int|
        0 <= i < s1.len() && 0 <= j < s1.len() && i != j implies (#[trigger] s1[i]).id != (
        #[trigger] s1[j]).id by {
        assert(s1[i].id == s[i].id && s1[j].id == s[j].id);
    }
    lemma_invoice_index_unique(s1, p);
    assert(s1[p].id == invoice_id);
}

/// Whether `b` keeps every book and counter of `a`: the invoices, bids,
/// investments and their active index, escrows, funding records, disputes,
/// the identifier counters, the bid time to live and the contract address.
pub open spec fn records_unchanged(a: Marketplace, b: Marketplace) -> bool {
    &&& b.invoice_records() == a.invoice_records()
    &&& b.invoice_ids() == a.invoice_ids()
    &&& b.investment_records() == a.investment_records()
    &&& b.next_investment_id() == a.next_investment_id()
    &&& b.active_investments() == a.active_investments()
    &&& b.bid_records() == a.bid_records()
    &&& b.bid_listing() == a.bid_listing()
    &&& b.bid_ttl() == a.bid_ttl()
    &&& b.escrow_records() == a.escrow_records()
    &&& b.next_escrow_id() == a.next_escrow_id()
    &&& b.fundings() == a.fundings()
    &&& b.dispute_records() == a.dispute_records()
    &&& b.contract_address() == a.contract_address()
    &&& b.business_records() == a.business_records()
    &&& b.investor_records() == a.investor_records()
    &&& b.accepted_currencies() == a.accepted_currencies()
    &&& b.events() == a.events()
    &&& b.protocol_setup() == a.protocol_setup()
}

/// Going from `a` to `b` changes neither the records nor the admin.
pub open spec fn books_unchanged(a: Marketplace, b: Marketplace) -> bool {
    &&& records_unchanged(a, b)
    &&& b.admin() == a.admin()
}

/// Why uploading an invoice of `business` in `currency` is refused before
/// the invoice itself is looked at, if it is: a business that is not
/// verified (`businesses` its applications), then, once some currencies
/// have been accepted, a currency that is not among them (`currencies`).
pub open spec fn upload_gate_error(
    businesses: Seq<BusinessVerification>,
    currencies: Seq<Address>,
    business: Address,
    currency: Address,
) -> Option<QuickLendXError> {
    if !is_verified(businesses, business) {
        Some(QuickLendXError::BusinessNotVerified)
    } else if currencies.len() > 0 && !currencies.contains(currency) {
        Some(QuickLendXError::InvalidCurrency)
    } else {
        None
    }
}

/// Why a bid of `bid_amount` by `investor` is refused before the invoice is
/// looked at, if it is: an investor that is not verified (`investors` its
/// applications), then a bid above its investment limit.
pub open spec fn bid_gate_error(
    investors: Seq<BusinessVerification>,
    investor: Address,
    bid_amount: i128,
) -> Option<QuickLendXError> {
    if !is_verified(investors, investor) {
        Some(QuickLendXError::InvestorNotVerified)
    } else if bid_amount > investment_limit(investors, investor) {
        Some(QuickLendXError::InvestmentLimitExceeded)
    } else {
        None
    }
}

/// The protocol contract's own address, its limits, and the books it keeps.
pub struct Marketplace {
    contract: Address,
    limits: ProtocolLimits,
    invoices: InvoiceRegistry,
    bids: BidStorage,
    investments: InvestmentStorage,
    escrows: EscrowStorage,
    fees: FeeManager,
    funding: Vec<FundingEntry>,
    disputes: DisputeRegistry,
    businesses: VerificationRegistry,
    investors: VerificationRegistry,
    currencies: Vec<Address>,
    events: Vec<MarketEvent>,
    admin: Option<Address>,
    setup: ProtocolInitializer,
}

impl Marketplace {
    /// The events announced so far, oldest first.
    pub closed spec fn events(&self) -> Seq<MarketEvent> {
        self.events@
    }

    /// The protocol admin, once one is set.
    pub closed spec fn admin(&self) -> Option<Address> {
        self.admin
    }

    /// The one-time protocol initialization and its configuration.
    pub closed spec fn protocol_setup(&self) -> ProtocolInitializer {
        self.setup
    }

    /// The invoices, in upload order.
    pub closed spec fn invoice_records(&self) -> Seq<Invoice> {
        self.invoices.stored()
    }

    /// The investments, in the order they were opened.
    pub closed spec fn investment_records(&self) -> Seq<Investment> {
        self.investments.stored()
    }

    /// The index of active investments.
    pub closed spec fn active_investments(&self) -> Seq<u64> {
        self.investments.active_index()
    }

    /// The bids, by identifier.
    pub closed spec fn bid_records(&self) -> Seq<Bid> {
        self.bids.records()
    }

    /// The escrows, in the order they were opened.
    pub closed spec fn escrow_records(&self) -> Seq<Escrow> {
        self.escrows.records()
    }

    /// The funding records, in the order the invoices were funded.
    pub closed spec fn fundings(&self) -> Seq<Funding> {
        self.funding@.map_values(|e: FundingEntry| e.record)
    }

    /// The protocol contract's address.
    pub closed spec fn contract_address(&self) -> Address {
        self.contract
    }

    /// Limits new invoices are checked against.
    pub closed spec fn invoice_limits(&self) -> ProtocolLimits {
        self.limits
    }

    /// The fee configuration.
    pub closed spec fn fee_state(&self) -> FeeManager {
        self.fees
    }

    /// The disputes, in the order they were opened.
    pub closed spec fn dispute_records(&self) -> Seq<Dispute> {
        self.disputes.records()
    }

    /// The verification applications of businesses.
    pub closed spec fn business_records(&self) -> Seq<BusinessVerification> {
        self.businesses.records()
    }

    /// The verification applications of investors.
    pub closed spec fn investor_records(&self) -> Seq<BusinessVerification> {
        self.investors.records()
    }

    /// The currencies invoices may be uploaded in, in the order they were
    /// accepted; while there are none, any currency may be used.
    pub closed spec fn accepted_currencies(&self) -> Seq<Address> {
        self.currencies@
    }

    /// Well-formedness of every book, and of the links between funded
    /// invoices and their investments.
    pub closed spec fn wf(&self) -> bool {
        &&& self.invoices.wf()
        &&& self.bids.wf()
        &&& self.investments.wf()
        &&& self.escrows.wf()
        &&& self.fees.wf()
        &&& self.disputes.wf()
        &&& self.businesses.wf()
        &&& self.investors.wf()
        &&& self.setup.wf()
        &&& links_ok(self.invoices.stored(), self.investments.stored(), self.funding@)
    }

    /// An empty marketplace run by contract `contract`, with the default
    /// limits and an uninitialized fee system.
    pub fn new(contract: Address) -> (r: Self)
        ensures
            r.wf(),
            r.contract_address() == contract,
            r.invoice_limits() == (ProtocolLimits {
                min_invoice_amount: DEFAULT_MIN_INVOICE_AMOUNT,
                max_due_date_days: DEFAULT_MAX_DUE_DATE_DAYS,
                grace_period_seconds: DEFAULT_GRACE_PERIOD_SECONDS,
                max_invoices_per_business: DEFAULT_MAX_INVOICES_PER_BUSINESS,
            }),
            r.invoice_records() == Seq::<Invoice>::empty(),
            r.investment_records() == Seq::<Investment>::empty(),
            r.bid_records() == Seq::<Bid>::empty(),
            r.escrow_records() == Seq::<Escrow>::empty(),
            r.fundings() == Seq::<Funding>::empty(),
            r.dispute_records() == Seq::<Dispute>::empty(),
            r.invoice_ids().counter() == 0,
            r.invoice_ids().issued() == Seq::<Seq<u8>>::empty(),
            r.next_investment_id() == 0,
            r.next_escrow_id() == 0,
            r.bid_ttl() == DEFAULT_BID_TTL_DAYS,
            r.bid_listing() == Seq::<bool>::empty(),
            r.active_investments() == Seq::<u64>::empty(),
            r.business_records() == Seq::<BusinessVerification>::empty(),
            r.investor_records() == Seq::<BusinessVerification>::empty(),
            r.accepted_currencies() == Seq::<Address>::empty(),
            r.events() == Seq::<MarketEvent>::empty(),
            r.admin() is None,
            r.protocol_setup().initialized_with() is None,
            r.protocol_setup().fee() == DEFAULT_FEE_BPS,
            !r.fee_state().is_initialized(),
            r.fee_state().structures() == Seq::<FeeStructure>::empty(),
            r.fee_state().platform_config() is None,
            r.fee_state().volumes() == Map::<Address, UserVolumeData>::empty(),
            r.fee_state().revenue_config() is None,
            r.fee_state().revenue() == Map::<u64, RevenueData>::empty(),
    {
        let r = Marketplace {
            contract,
            limits: ProtocolLimits::default_limits(),
            invoices: InvoiceRegistry::new(),
            bids: BidStorage::new(),
            investments: InvestmentStorage::new(),
            escrows: EscrowStorage::new(),
            fees: FeeManager::new(),
            funding: Vec::new(),
            disputes: DisputeRegistry::new(),
            businesses: VerificationRegistry::new(),
            investors: VerificationRegistry::new(),
            currencies: Vec::new(),
            events: Vec::new(),
            admin: None,
            setup: ProtocolInitializer::new(),
        };
        proof {
            assert(r.funding@.map_values(|e: FundingEntry| e.record) =~= Seq::<Funding>::empty());
        }
        r
    }
    /// The allocator of invoice identifiers.
    pub closed spec fn invoice_ids(&self) -> InvoiceIdAllocator {
        self.invoices.id_allocator()
    }

    /// Next investment identifier to hand out.
    pub closed spec fn next_investment_id(&self) -> u64 {
        self.investments.next_identifier()
    }

    /// Next escrow identifier to hand out.
    pub closed spec fn next_escrow_id(&self) -> u128 {
        self.escrows.next_identifier()
    }

    /// Time to live of new bids, in days.
    pub closed spec fn bid_ttl(&self) -> u64 {
        self.bids.ttl()
    }

    /// Index flags of the bids.
    pub closed spec fn bid_listing(&self) -> Seq<bool> {
        self.bids.listed()
    }

    /// Sets up the fee system, as `FeeManager::initialize` does: `NotAdmin`
    /// unless `admin` is the stored protocol admin, then
    /// `InvalidFeeConfiguration` when already done; otherwise the default
    /// structures and a 2 % platform fee. Only the fee state changes.
    pub fn initialize_fee_system(&mut self, admin: Address, now: u64) -> (r:
        Result<(), QuickLendXError>)
        requires
            old(self).wf(),
        ensures
            final(self).wf(),
            books_unchanged(*old(self), *final(self)),
            final(self).invoice_limits() == old(self).invoice_limits(),
            old(self).admin() != Some(admin) ==> r == Err::<(), QuickLendXError>(QuickLendXError::NotAdmin),
            old(self).admin() == Some(admin) && old(self).fee_state().is_initialized() ==> r == Err::<
                (),
                QuickLendXError,
            >(QuickLendXError::InvalidFeeConfiguration),
            r is Err ==> final(self).fee_state() == old(self).fee_state(),
            r is Ok <==> old(self).admin() == Some(admin) && !old(self).fee_state().is_initialized(),
            r is Ok ==> {
                &&& final(self).fee_state().is_initialized()
                &&& final(self).fee_state().structures() == default_structures(now, admin)
                &&& final(self).fee_state().platform_config() == Some(
                    PlatformFeeConfig {
                        fee_bps: DEFAULT_PLATFORM_FEE_BPS,
                        treasury_address: None,
                        updated_at: now,
                        updated_by: admin,
                    },
                )
                &&& final(self).fee_state().volumes() == old(self).fee_state().volumes()
                &&& final(self).fee_state().revenue_config() == old(self).fee_state().revenue_config()
                &&& final(self).fee_state().revenue() == old(self).fee_state().revenue()
            },
    {
        self.fees.initialize(admin, self.admin, now)
    }

    /// Sets the platform fee rate that settlements charge on profit, as
    /// `FeeManager::update_platform_fee` does: `NotAdmin` unless `admin` is
    /// the stored protocol admin, then `InvalidFeeBasisPoints` above
    /// `MAX_FEE_BPS`. Only the fee state changes.
    pub fn set_platform_fee(
        &mut self,
        admin: Address,
        fee_bps: u32,
        now: u64,
    ) -> (r: Result<(), QuickLendXError>)
        requires
            old(self).wf(),
        ensures
            final(self).wf(),
            books_unchanged(*old(self), *final(self)),
            final(self).invoice_limits() == old(self).invoice_limits(),
            old(self).admin() != Some(admin) ==> r == Err::<(), QuickLendXError>(QuickLendXError::NotAdmin),
            old(self).admin() == Some(admin) && fee_bps > MAX_FEE_BPS ==> r == Err::<(), QuickLendXError>(
                QuickLendXError::InvalidFeeBasisPoints,
            ),
            r is Err ==> final(self).fee_state() == old(self).fee_state(),
            r is Ok <==> old(self).admin() == Some(admin) && fee_bps <= MAX_FEE_BPS,
            r is Ok ==> {
                &&& final(self).fee_state().platform_config() == Some(
                    PlatformFeeConfig {
                        fee_bps,
                        treasury_address: treasury_of(old(self).fee_state().platform_config()),
                        updated_at: now,
                        updated_by: admin,
                    },
                )
                &&& final(self).fee_state().structures() == old(self).fee_state().structures()
                &&& final(self).fee_state().volumes() == old(self).fee_state().volumes()
                &&& final(self).fee_state().revenue_config() == old(self).fee_state().revenue_config()
                &&& final(self).fee_state().revenue() == old(self).fee_state().revenue()
                &&& final(self).fee_state().is_initialized() == old(self).fee_state().is_initialized()
            },
    {
        self.fees.update_platform_fee(admin, self.admin, fee_bps, now)
    }

    /// Sets the limits new invoices are checked against, keeping the cap on
    /// active invoices per business, as `ProtocolLimits::set_protocol_limits`
    /// does. Only the limits change.
    pub fn set_protocol_limits(
        &mut self,
        caller: Address,
        min_invoice_amount: i128,
        max_due_date_days: u64,
        grace_period_seconds: u64,
    ) -> (r: Result<(), QuickLendXError>)
        requires
            old(self).wf(),
        ensures
            final(self).wf(),
            books_unchanged(*old(self), *final(self)),
            final(self).fee_state() == old(self).fee_state(),
            old(self).admin() != Some(caller) ==> r == Err::<(), QuickLendXError>(QuickLendXError::NotAdmin),
            old(self).admin() == Some(caller) ==> r == result_of(
                limits_error(
                    min_invoice_amount as int,
                    max_due_date_days as int,
                    grace_period_seconds as int,
                ),
            ),
            r is Err ==> final(self).invoice_limits() == old(self).invoice_limits(),
            r is Ok ==> final(self).invoice_limits() == (ProtocolLimits {
                min_invoice_amount,
                max_due_date_days,
                grace_period_seconds,
                max_invoices_per_business: old(self).invoice_limits().max_invoices_per_business,
            }),
    {
        self.limits.set_protocol_limits(
            caller,
            self.admin,
            min_invoice_amount,
            max_due_date_days,
            grace_period_seconds,
        )
    }

    /// Sets every limit new invoices are checked against, the cap on active
    /// invoices per business included (0 for no cap), as
    /// `ProtocolLimits::update_limits_max_invoices` does. Only the limits
    /// change.
    pub fn update_limits_max_invoices(
        &mut self,
        caller: Address,
        min_invoice_amount: i128,
        max_due_date_days: u64,
        grace_period_seconds: u64,
        max_invoices_per_business: u32,
    ) -> (r: Result<(), QuickLendXError>)
        requires
            old(self).wf(),
        ensures
            final(self).wf(),
            books_unchanged(*old(self), *final(self)),
            final(self).fee_state() == old(self).fee_state(),
            old(self).admin() != Some(caller) ==> r == Err::<(), QuickLendXError>(QuickLendXError::NotAdmin),
            old(self).admin() == Some(caller) ==> r == result_of(
                limits_error(
                    min_invoice_amount as int,
                    max_due_date_days as int,
                    grace_period_seconds as int,
                ),
            ),
            r is Err ==> final(self).invoice_limits() == old(self).invoice_limits(),
            r is Ok ==> final(self).invoice_limits() == (ProtocolLimits {
                min_invoice_amount,
                max_due_date_days,
                grace_period_seconds,
                max_invoices_per_business,
            }),
    {
        self.limits.update_limits_max_invoices(
            caller,
            self.admin,
            min_invoice_amount,
            max_due_date_days,
            grace_period_seconds,
            max_invoices_per_business,
        )
    }

    /// Uploads an invoice of `business` at `now` and ledger sequence
    /// `sequence`: fails, changing nothing, as
    /// `upload_gate_error` says; otherwise as `store_invoice`.
    pub fn upload_invoice(
        &mut self,
        business: Address,
        amount: i128,
        currency: Address,
        due_date: u64,
        description: Vec<u8>,
        category: InvoiceCategory,
        tags: &Vec<Vec<u8>>,
        now: u64,
        sequence: u32,
    ) -> (r: Result<InvoiceId, QuickLendXError>)
        requires
            old(self).wf(),
        ensures
            final(self).wf(),
            ({
                let gate = upload_gate_error(
                    old(self).business_records(),
                    old(self).accepted_currencies(),
                    business,
                    currency,
                );
                &&& gate matches Some(e) ==> r == Err::<InvoiceId, QuickLendXError>(e)
                    && final(self).invoice_records() == old(self).invoice_records()
                    && final(self).invoice_ids() == old(self).invoice_ids()
                &&& gate is None ==> upload_outcome(
                    old(self).invoice_records(),
                    old(self).invoice_ids(),
                    final(self).invoice_records(),
                    final(self).invoice_ids(),
                    old(self).invoice_limits(),
                    business,
                    amount,
                    currency,
                    due_date,
                    description@,
                    category,
                    tag_views(tags@),
                    now,
                    sequence,
                    r,
                )
            }),
            final(self).investment_records() == old(self).investment_records(),
            final(self).active_investments() == old(self).active_investments(),
            final(self).bid_records() == old(self).bid_records(),
            final(self).escrow_records() == old(self).escrow_records(),
            final(self).fundings() == old(self).fundings(),
            final(self).dispute_records() == old(self).dispute_records(),
            final(self).next_investment_id() == old(self).next_investment_id(),
            final(self).next_escrow_id() == old(self).next_escrow_id(),
            final(self).bid_ttl() == old(self).bid_ttl(),
            final(self).bid_listing() == old(self).bid_listing(),
            final(self).invoice_limits() == old(self).invoice_limits(),
            final(self).fee_state() == old(self).fee_state(),
            final(self).contract_address() == old(self).contract_address(),
            final(self).business_records() == old(self).business_records(),
            final(self).investor_records() == old(self).investor_records(),
            final(self).accepted_currencies() == old(self).accepted_currencies(),
            final(self).admin() == old(self).admin(),
            final(self).protocol_setup() == old(self).protocol_setup(),
            r matches Ok(id) ==> final(self).events() == old(self).events().push(
                MarketEvent::InvoiceUploaded { invoice_id: id, business },
            ),
            r is Err ==> final(self).events() == old(self).events(),
    {
        if !self.businesses.is_business_verified(business) {
            return Err(QuickLendXError::BusinessNotVerified);
        }
        if self.currencies.len() > 0 && !self.is_currency_accepted(currency) {
            return Err(QuickLendXError::InvalidCurrency);
        }
        self.store_invoice(business, amount, currency, due_date, description, category, tags, now, sequence)
    }

    /// Whether `currency` is among the accepted currencies.
    pub fn is_currency_accepted(&self, currency: Address) -> (r: bool)
        ensures
            r == self.accepted_currencies().contains(currency),
    {
        let mut i: usize = 0;
        while i < self.currencies.len()
            invariant
                0 <= i <= self.currencies@.len(),
                forall|j: int| 0 <= j < i ==> self.currencies@[j] != currency,
            decreases self.currencies@.len() - i,
        {
            if self.currencies[i] == currency {
                proof {
                    assert(self.currencies@[i as int] == currency);
                }
                return true;
            }
            i = i + 1;
        }
        false
    }

    /// Initializes the protocol with `params` at `now`, as
    /// `ProtocolInitializer::initialize` does for this contract. The first
    /// successful initialization also makes `params.admin` the admin, gives
    /// the invoice limits its minimum amount, horizon and grace period (the
    /// cap per business stays), and makes its initial currencies the
    /// accepted ones. Nothing else changes.
    pub fn initialize(&mut self, params: &InitializationParams, now: u64) -> (r: Result<
        (),
        QuickLendXError,
    >)
        requires
            old(self).wf(),
        ensures
            final(self).wf(),
            ({
                let o = old(self).protocol_setup();
                let f = final(self).protocol_setup();
                &&& o.initialized_with() matches Some(p) ==> f == o && r == if same_params(
                    p,
                    *params,
                ) {
                    Ok::<(), QuickLendXError>(())
                } else {
                    Err::<(), QuickLendXError>(QuickLendXError::OperationNotAllowed)
                }
                &&& o.initialized_with() is None ==> r == outcome(
                    init_params_error(*params, old(self).contract_address()),
                )
                &&& o.initialized_with() is None && r is Err ==> f == o
                &&& o.initialized_with() is None && r is Ok ==> {
                    &&& f.initialized_with() matches Some(p) && same_params(p, *params)
                    &&& f.admin() == Some(params.admin)
                    &&& f.treasury() == Some(params.treasury)
                    &&& f.fee() == params.fee_bps
                    &&& f.config() == Some(
                        ProtocolConfig {
                            min_invoice_amount: params.min_invoice_amount,
                            max_due_date_days: params.max_due_date_days,
                            grace_period_seconds: params.grace_period_seconds,
                            updated_at: now,
                            updated_by: params.admin,
                        },
                    )
                    &&& f.currencies() == params.initial_currencies@
                }
            }),
            old(self).protocol_setup().initialized_with() is None && r is Ok ==> {
                &&& final(self).admin() == Some(params.admin)
                &&& final(self).invoice_limits() == (ProtocolLimits {
                    min_invoice_amount: params.min_invoice_amount,
                    max_due_date_days: params.max_due_date_days,
                    grace_period_seconds: params.grace_period_seconds,
                    ..old(self).invoice_limits()
                })
                &&& final(self).accepted_currencies() == params.initial_currencies@
            },
            !(old(self).protocol_setup().initialized_with() is None && r is Ok) ==> {
                &&& final(self).admin() == old(self).admin()
                &&& final(self).invoice_limits() == old(self).invoice_limits()
                &&& final(self).accepted_currencies() == old(self).accepted_currencies()
            },
            final(self).invoice_records() == old(self).invoice_records(),
            final(self).invoice_ids() == old(self).invoice_ids(),
            final(self).investment_records() == old(self).investment_records(),
            final(self).next_investment_id() == old(self).next_investment_id(),
            final(self).active_investments() == old(self).active_investments(),
            final(self).bid_records() == old(self).bid_records(),
            final(self).bid_listing() == old(self).bid_listing(),
            final(self).bid_ttl() == old(self).bid_ttl(),
            final(self).escrow_records() == old(self).escrow_records(),
            final(self).next_escrow_id() == old(self).next_escrow_id(),
            final(self).fundings() == old(self).fundings(),
            final(self).dispute_records() == old(self).dispute_records(),
            final(self).contract_address() == old(self).contract_address(),
            final(self).business_records() == old(self).business_records(),
            final(self).investor_records() == old(self).investor_records(),
            final(self).fee_state() == old(self).fee_state(),
            final(self).events() == old(self).events(),
    {
        let fresh = !self.setup.is_initialized();
        let r = self.setup.initialize(params, self.contract, now);
        if fresh && r.is_ok() {
            self.admin = Some(params.admin);
            self.limits.min_invoice_amount = params.min_invoice_amount;
            self.limits.max_due_date_days = params.max_due_date_days;
            self.limits.grace_period_seconds = params.grace_period_seconds;
            self.currencies = copy_addresses(&params.initial_currencies);
        }
        r
    }

    /// The one-time protocol initialization and its configuration.
    pub fn get_protocol_setup(&self) -> (r: &ProtocolInitializer)
        ensures
            *r == self.protocol_setup(),
    {
        &self.setup
    }

    /// The protocol admin, if one is set.
    pub fn get_admin(&self) -> (r: Option<Address>)
        ensures
            r == self.admin(),
    {
        self.admin
    }

    /// Sets `admin` as the first protocol admin; `OperationNotAllowed`,
    /// changing nothing, once an admin is set. Nothing else changes.
    pub fn initialize_admin(&mut self, admin: Address) -> (r: Result<(), QuickLendXError>)
        requires
            old(self).wf(),
        ensures
            final(self).wf(),
            r is Ok <==> old(self).admin() is None,
            r is Err ==> r == Err::<(), QuickLendXError>(QuickLendXError::OperationNotAllowed),
            final(self).admin() == if r is Ok {
                Some(admin)
            } else {
                old(self).admin()
            },
            records_unchanged(*old(self), *final(self)),
            final(self).invoice_limits() == old(self).invoice_limits(),
            final(self).fee_state() == old(self).fee_state(),
    {
        if self.admin.is_some() {
            return Err(QuickLendXError::OperationNotAllowed);
        }
        self.admin = Some(admin);
        Ok(())
    }

    /// Makes `new_admin` the protocol admin: freely while none is set,
    /// afterwards only when `caller` is the current admin (`NotAdmin`
    /// otherwise, changing nothing). Nothing else changes.
    pub fn set_admin(&mut self, caller: Address, new_admin: Address) -> (r: Result<(), QuickLendXError>)
        requires
            old(self).wf(),
        ensures
            final(self).wf(),
            r is Ok <==> (old(self).admin() is None || old(self).admin() == Some(caller)),
            r is Err ==> r == Err::<(), QuickLendXError>(QuickLendXError::NotAdmin),
            final(self).admin() == if r is Ok {
                Some(new_admin)
            } else {
                old(self).admin()
            },
            records_unchanged(*old(self), *final(self)),
            final(self).invoice_limits() == old(self).invoice_limits(),
            final(self).fee_state() == old(self).fee_state(),
    {
        if self.admin.is_some() && self.admin != Some(caller) {
            return Err(QuickLendXError::NotAdmin);
        }
        self.admin = Some(new_admin);
        Ok(())
    }

    /// Accepts `currency` for uploads: `NotAdmin` unless `caller` is the
    /// stored protocol admin; a currency already accepted stays listed
    /// once. Only the accepted currencies change.
    pub fn add_currency(&mut self, caller: Address, currency: Address) -> (r:
        Result<(), QuickLendXError>)
        requires
            old(self).wf(),
        ensures
            final(self).wf(),
            old(self).admin() != Some(caller) ==> r == Err::<(), QuickLendXError>(QuickLendXError::NotAdmin),
            r is Ok <==> old(self).admin() == Some(caller),
            final(self).accepted_currencies() == if r is Err || old(self).accepted_currencies().contains(currency) {
                old(self).accepted_currencies()
            } else {
                old(self).accepted_currencies().push(currency)
            },
            final(self).invoice_records() == old(self).invoice_records(),
            final(self).invoice_ids() == old(self).invoice_ids(),
            final(self).investment_records() == old(self).investment_records(),
            final(self).next_investment_id() == old(self).next_investment_id(),
            final(self).active_investments() == old(self).active_investments(),
            final(self).bid_records() == old(self).bid_records(),
            final(self).bid_listing() == old(self).bid_listing(),
            final(self).bid_ttl() == old(self).bid_ttl(),
            final(self).escrow_records() == old(self).escrow_records(),
            final(self).next_escrow_id() == old(self).next_escrow_id(),
            final(self).fundings() == old(self).fundings(),
            final(self).dispute_records() == old(self).dispute_records(),
            final(self).contract_address() == old(self).contract_address(),
            final(self).business_records() == old(self).business_records(),
            final(self).investor_records() == old(self).investor_records(),
            final(self).invoice_limits() == old(self).invoice_limits(),
            final(self).fee_state() == old(self).fee_state(),
            final(self).events() == old(self).events(),
            final(self).admin() == old(self).admin(),
            final(self).protocol_setup() == old(self).protocol_setup(),
    {
        if self.admin != Some(caller) {
            return Err(QuickLendXError::NotAdmin);
        }
        if !self.is_currency_accepted(currency) {
            self.currencies.push(currency);
        }
        Ok(())
    }

    /// Submits the KYC data of business `business` at `now`, as
    /// `submission_outcome` says. Only the business applications change.
    pub fn submit_kyc_application(&mut self, business: Address, kyc_data: Vec<u8>, now: u64) -> (r:
        Result<(), QuickLendXError>)
        requires
            old(self).wf(),
        ensures
            final(self).wf(),
            submission_outcome(
                old(self).business_records(),
                final(self).business_records(),
                business,
                kyc_data@,
                now,
                r,
            ),
            final(self).invoice_records() == old(self).invoice_records(),
            final(self).invoice_ids() == old(self).invoice_ids(),
            final(self).investment_records() == old(self).investment_records(),
            final(self).next_investment_id() == old(self).next_investment_id(),
            final(self).active_investments() == old(self).active_investments(),
            final(self).bid_records() == old(self).bid_records(),
            final(self).bid_listing() == old(self).bid_listing(),
            final(self).bid_ttl() == old(self).bid_ttl(),
            final(self).escrow_records() == old(self).escrow_records(),
            final(self).next_escrow_id() == old(self).next_escrow_id(),
            final(self).fundings() == old(self).fundings(),
            final(self).dispute_records() == old(self).dispute_records(),
            final(self).contract_address() == old(self).contract_address(),
            final(self).accepted_currencies() == old(self).accepted_currencies(),
            final(self).admin() == old(self).admin(),
            final(self).protocol_setup() == old(self).protocol_setup(),
            final(self).events() == old(self).events(),
            final(self).invoice_limits() == old(self).invoice_limits(),
            final(self).fee_state() == old(self).fee_state(),
            final(self).investor_records() == old(self).investor_records(),
    {
        self.businesses.submit_kyc_application(business, kyc_data, now)
    }

    /// The admin verifies the pending application of business `business`,
    /// as `decision_outcome` says. Only the business applications change.
    pub fn verify_business(&mut self, caller: Address, business: Address) -> (r:
        Result<(), QuickLendXError>)
        requires
            old(self).wf(),
        ensures
            final(self).wf(),
            decision_outcome(
                old(self).business_records(),
                final(self).business_records(),
                caller,
                old(self).admin(),
                business,
                VerificationStatus::Verified,
                None,
                None,
                r,
            ),
            final(self).invoice_records() == old(self).invoice_records(),
            final(self).invoice_ids() == old(self).invoice_ids(),
            final(self).investment_records() == old(self).investment_records(),
            final(self).next_investment_id() == old(self).next_investment_id(),
            final(self).active_investments() == old(self).active_investments(),
            final(self).bid_records() == old(self).bid_records(),
            final(self).bid_listing() == old(self).bid_listing(),
            final(self).bid_ttl() == old(self).bid_ttl(),
            final(self).escrow_records() == old(self).escrow_records(),
            final(self).next_escrow_id() == old(self).next_escrow_id(),
            final(self).fundings() == old(self).fundings(),
            final(self).dispute_records() == old(self).dispute_records(),
            final(self).contract_address() == old(self).contract_address(),
            final(self).accepted_currencies() == old(self).accepted_currencies(),
            final(self).admin() == old(self).admin(),
            final(self).protocol_setup() == old(self).protocol_setup(),
            final(self).events() == old(self).events(),
            final(self).invoice_limits() == old(self).invoice_limits(),
            final(self).fee_state() == old(self).fee_state(),
            final(self).investor_records() == old(self).investor_records(),
    {
        self.businesses.verify_business(caller, self.admin, business)
    }

    /// The admin rejects the pending application of business `business`
    /// for `reason`, as `VerificationRegistry::reject_business` does. Only
    /// the business applications change.
    pub fn reject_business(
        &mut self,
        caller: Address,
        business: Address,
        reason: Vec<u8>,
    ) -> (r: Result<(), QuickLendXError>)
        requires
            old(self).wf(),
        ensures
            final(self).wf(),
            old(self).admin() == Some(caller) && reason@.len() > MAX_REJECTION_REASON_LENGTH ==> r == Err::<
                (),
                QuickLendXError,
            >(QuickLendXError::InvalidDescription) && final(self).business_records() == old(self).business_records(),
            old(self).admin() != Some(caller) || reason@.len() <= MAX_REJECTION_REASON_LENGTH ==> decision_outcome(
                old(self).business_records(),
                final(self).business_records(),
                caller,
                old(self).admin(),
                business,
                VerificationStatus::Rejected,
                Some(reason@),
                None,
                r,
            ),
            final(self).invoice_records() == old(self).invoice_records(),
            final(self).invoice_ids() == old(self).invoice_ids(),
            final(self).investment_records() == old(self).investment_records(),
            final(self).next_investment_id() == old(self).next_investment_id(),
            final(self).active_investments() == old(self).active_investments(),
            final(self).bid_records() == old(self).bid_records(),
            final(self).bid_listing() == old(self).bid_listing(),
            final(self).bid_ttl() == old(self).bid_ttl(),
            final(self).escrow_records() == old(self).escrow_records(),
            final(self).next_escrow_id() == old(self).next_escrow_id(),
            final(self).fundings() == old(self).fundings(),
            final(self).dispute_records() == old(self).dispute_records(),
            final(self).contract_address() == old(self).contract_address(),
            final(self).accepted_currencies() == old(self).accepted_currencies(),
            final(self).admin() == old(self).admin(),
            final(self).protocol_setup() == old(self).protocol_setup(),
            final(self).events() == old(self).events(),
            final(self).invoice_limits() == old(self).invoice_limits(),
            final(self).fee_state() == old(self).fee_state(),
            final(self).investor_records() == old(self).investor_records(),
    {
        self.businesses.reject_business(caller, self.admin, business, reason)
    }

    /// Submits the KYC data of investor `investor` at `now`, as
    /// `submission_outcome` says. Only the investor applications change.
    pub fn submit_investor_kyc(&mut self, investor: Address, kyc_data: Vec<u8>, now: u64) -> (r:
        Result<(), QuickLendXError>)
        requires
            old(self).wf(),
        ensures
            final(self).wf(),
            submission_outcome(
                old(self).investor_records(),
                final(self).investor_records(),
                investor,
                kyc_data@,
                now,
                r,
            ),
            final(self).invoice_records() == old(self).invoice_records(),
            final(self).invoice_ids() == old(self).invoice_ids(),
            final(self).investment_records() == old(self).investment_records(),
            final(self).next_investment_id() == old(self).next_investment_id(),
            final(self).active_investments() == old(self).active_investments(),
            final(self).bid_records() == old(self).bid_records(),
            final(self).bid_listing() == old(self).bid_listing(),
            final(self).bid_ttl() == old(self).bid_ttl(),
            final(self).escrow_records() == old(self).escrow_records(),
            final(self).next_escrow_id() == old(self).next_escrow_id(),
            final(self).fundings() == old(self).fundings(),
            final(self).dispute_records() == old(self).dispute_records(),
            final(self).contract_address() == old(self).contract_address(),
            final(self).accepted_currencies() == old(self).accepted_currencies(),
            final(self).admin() == old(self).admin(),
            final(self).protocol_setup() == old(self).protocol_setup(),
            final(self).events() == old(self).events(),
            final(self).invoice_limits() == old(self).invoice_limits(),
            final(self).fee_state() == old(self).fee_state(),
            final(self).business_records() == old(self).business_records(),
    {
        self.investors.submit_kyc_application(investor, kyc_data, now)
    }

    /// The admin verifies the pending application of investor `investor`
    /// with investment limit `limit`, as
    /// `VerificationRegistry::verify_investor` does. Only the investor
    /// applications change.
    pub fn verify_investor(
        &mut self,
        caller: Address,
        investor: Address,
        limit: i128,
    ) -> (r: Result<(), QuickLendXError>)
        requires
            old(self).wf(),
        ensures
            final(self).wf(),
            old(self).admin() == Some(caller) && limit <= 0 ==> r == Err::<(), QuickLendXError>(
                QuickLendXError::InvalidAmount,
            ) && final(self).investor_records() == old(self).investor_records(),
            old(self).admin() != Some(caller) || limit > 0 ==> decision_outcome(
                old(self).investor_records(),
                final(self).investor_records(),
                caller,
                old(self).admin(),
                investor,
                VerificationStatus::Verified,
                None,
                Some(limit),
                r,
            ),
            final(self).invoice_records() == old(self).invoice_records(),
            final(self).invoice_ids() == old(self).invoice_ids(),
            final(self).investment_records() == old(self).investment_records(),
            final(self).next_investment_id() == old(self).next_investment_id(),
            final(self).active_investments() == old(self).active_investments(),
            final(self).bid_records() == old(self).bid_records(),
            final(self).bid_listing() == old(self).bid_listing(),
            final(self).bid_ttl() == old(self).bid_ttl(),
            final(self).escrow_records() == old(self).escrow_records(),
            final(self).next_escrow_id() == old(self).next_escrow_id(),
            final(self).fundings() == old(self).fundings(),
            final(self).dispute_records() == old(self).dispute_records(),
            final(self).contract_address() == old(self).contract_address(),
            final(self).accepted_currencies() == old(self).accepted_currencies(),
            final(self).admin() == old(self).admin(),
            final(self).protocol_setup() == old(self).protocol_setup(),
            final(self).events() == old(self).events(),
            final(self).invoice_limits() == old(self).invoice_limits(),
            final(self).fee_state() == old(self).fee_state(),
            final(self).business_records() == old(self).business_records(),
    {
        self.investors.verify_investor(caller, self.admin, investor, limit)
    }

    /// Stores an invoice of `business` as `InvoiceRegistry::store_invoice`
    /// does, against the marketplace's limits, whoever the business and
    /// whatever the currency; nothing else changes.
    pub fn store_invoice(
        &mut self,
        business: Address,
        amount: i128,
        currency: Address,
        due_date: u64,
        description: Vec<u8>,
        category: InvoiceCategory,
        tags: &Vec<Vec<u8>>,
        now: u64,
        sequence: u32,
    ) -> (r: Result<InvoiceId, QuickLendXError>)
        requires
            old(self).wf(),
        ensures
            final(self).wf(),
            upload_outcome(
                old(self).invoice_records(),
                old(self).invoice_ids(),
                final(self).invoice_records(),
                final(self).invoice_ids(),
                old(self).invoice_limits(),
                business,
                amount,
                currency,
                due_date,
                description@,
                category,
                tag_views(tags@),
                now,
                sequence,
                r,
            ),
            final(self).investment_records() == old(self).investment_records(),
            final(self).active_investments() == old(self).active_investments(),
            final(self).bid_records() == old(self).bid_records(),
            final(self).escrow_records() == old(self).escrow_records(),
            final(self).fundings() == old(self).fundings(),
            final(self).dispute_records() == old(self).dispute_records(),
            final(self).next_investment_id() == old(self).next_investment_id(),
            final(self).next_escrow_id() == old(self).next_escrow_id(),
            final(self).bid_ttl() == old(self).bid_ttl(),
            final(self).bid_listing() == old(self).bid_listing(),
            final(self).invoice_limits() == old(self).invoice_limits(),
            final(self).fee_state() == old(self).fee_state(),
            final(self).contract_address() == old(self).contract_address(),
            final(self).business_records() == old(self).business_records(),
            final(self).investor_records() == old(self).investor_records(),
            final(self).accepted_currencies() == old(self).accepted_currencies(),
            final(self).admin() == old(self).admin(),
            final(self).protocol_setup() == old(self).protocol_setup(),
            r matches Ok(id) ==> final(self).events() == old(self).events().push(
                MarketEvent::InvoiceUploaded { invoice_id: id, business },
            ),
            r is Err ==> final(self).events() == old(self).events(),
    {
        let ghost s = self.invoices.stored();
        let r = self.invoices.store_invoice(
            &self.limits,
            business,
            amount,
            currency,
            due_date,
            description,
            category,
            tags,
            now,
            sequence,
        );
        proof {
            if r is Ok {
                let s2 = self.invoices.stored();
                assert(s2 =~= s.push(s2.last()));
                lemma_links_push_invoice(s, self.investments.stored(), self.funding@, s2.last());
            }
        }
        if let Ok(id) = r {
            self.events.push(MarketEvent::InvoiceUploaded { invoice_id: id, business });
        }
        r
    }

    /// Moves invoice `id` from pending to verified and announces it, or
    /// fails as `status_move_outcome` says; nothing else changes.
    pub fn verify_invoice(&mut self, id: InvoiceId) -> (r: Result<(), QuickLendXError>)
        requires
            old(self).wf(),
        ensures
            final(self).wf(),
            status_move_outcome(
                old(self).invoice_records(),
                final(self).invoice_records(),
                id,
                InvoiceStatus::Verified,
                r,
            ),
            final(self).invoice_ids() == old(self).invoice_ids(),
            final(self).investment_records() == old(self).investment_records(),
            final(self).active_investments() == old(self).active_investments(),
            final(self).bid_records() == old(self).bid_records(),
            final(self).escrow_records() == old(self).escrow_records(),
            final(self).fundings() == old(self).fundings(),
            final(self).dispute_records() == old(self).dispute_records(),
            final(self).next_investment_id() == old(self).next_investment_id(),
            final(self).next_escrow_id() == old(self).next_escrow_id(),
            final(self).bid_ttl() == old(self).bid_ttl(),
            final(self).bid_listing() == old(self).bid_listing(),
            final(self).invoice_limits() == old(self).invoice_limits(),
            final(self).fee_state() == old(self).fee_state(),
            final(self).contract_address() == old(self).contract_address(),
            final(self).business_records() == old(self).business_records(),
            final(self).investor_records() == old(self).investor_records(),
            final(self).accepted_currencies() == old(self).accepted_currencies(),
            final(self).admin() == old(self).admin(),
            final(self).protocol_setup() == old(self).protocol_setup(),
            r is Ok ==> final(self).events() == old(self).events().push(
                MarketEvent::InvoiceVerified { invoice_id: id },
            ),
            r is Err ==> final(self).events() == old(self).events(),
    {
        let r = self.move_unfunded(id, InvoiceStatus::Verified);
        if r.is_ok() {
            self.events.push(MarketEvent::InvoiceVerified { invoice_id: id });
        }
        r
    }

    /// Cancels invoice `id`. A pending or verified invoice is cancelled as
    /// `status_move_outcome` says, and nothing else changes. A funded one
    /// is cancelled as `escrow_refund_outcome` says: its escrow goes back
    /// to the investor (the protocol holding `contract_balance`) and its
    /// investment is refunded; the transfer to perform is returned.
    pub fn cancel_invoice(&mut self, id: InvoiceId, contract_balance: i128) -> (r: Result<
        Option<Transfer>,
        QuickLendXError,
    >)
        requires
            old(self).wf(),
        ensures
            final(self).wf(),
            ({
                let s = old(self).invoice_records();
                let p = invoice_index(s, id);
                &&& (p < 0 || s[p].status != InvoiceStatus::Funded) ==> {
                    &&& status_move_outcome(
                        s,
                        final(self).invoice_records(),
                        id,
                        InvoiceStatus::Cancelled,
                        without_transfer(r),
                    )
                    &&& r is Ok ==> r == Ok::<Option<Transfer>, QuickLendXError>(None)
                    &&& final(self).investment_records() == old(self).investment_records()
                    &&& final(self).active_investments() == old(self).active_investments()
                    &&& final(self).escrow_records() == old(self).escrow_records()
                }
                &&& p >= 0 && s[p].status == InvoiceStatus::Funded ==> escrow_refund_outcome(
                    s,
                    old(self).investment_records(),
                    old(self).fundings(),
                    old(self).escrow_records(),
                    old(self).active_investments(),
                    old(self).contract_address(),
                    final(self).invoice_records(),
                    final(self).investment_records(),
                    final(self).escrow_records(),
                    final(self).active_investments(),
                    id,
                    contract_balance,
                    InvoiceStatus::Cancelled,
                    r,
                )
            }),
            final(self).invoice_ids() == old(self).invoice_ids(),
            final(self).bid_records() == old(self).bid_records(),
            final(self).fundings() == old(self).fundings(),
            final(self).dispute_records() == old(self).dispute_records(),
            final(self).next_investment_id() == old(self).next_investment_id(),
            final(self).next_escrow_id() == old(self).next_escrow_id(),
            final(self).bid_ttl() == old(self).bid_ttl(),
            final(self).bid_listing() == old(self).bid_listing(),
            final(self).invoice_limits() == old(self).invoice_limits(),
            final(self).fee_state() == old(self).fee_state(),
            final(self).contract_address() == old(self).contract_address(),
            final(self).business_records() == old(self).business_records(),
            final(self).investor_records() == old(self).investor_records(),
            final(self).accepted_currencies() == old(self).accepted_currencies(),
            final(self).admin() == old(self).admin(),
            final(self).protocol_setup() == old(self).protocol_setup(),
            final(self).events() == old(self).events(),
    {
        proof {
            lemma_invoice_index(self.invoices.stored(), id);
        }
        let funded = match self.invoices.find(id) {
            Some(p) => {
                proof {
                    lemma_invoice_index_unique(self.invoices.stored(), p as int);
                }
                self.invoices.invoice_at(p).status == InvoiceStatus::Funded
            },
            None => false,
        };
        if funded {
            self.refund_to(id, contract_balance, InvoiceStatus::Cancelled)
        } else {
            proof {
                let s = self.invoices.stored();
                assert forall|i: int| 0 <= i < s.len() && (#[trigger] s[i]).id == id implies s[i].status
                    != InvoiceStatus::Funded by {
                    lemma_invoice_index_unique(s, i);
                }
            }
            match self.move_unfunded(id, InvoiceStatus::Cancelled) {
                Ok(()) => Ok(None),
                Err(e) => Err(e),
            }
        }
    }

    fn move_unfunded(&mut self, id: InvoiceId, to: InvoiceStatus) -> (r: Result<(), QuickLendXError>)
        requires
            old(self).wf(),
            !funded_once(to),
            to == InvoiceStatus::Cancelled ==> forall|i: int|
                0 <= i < old(self).invoice_records().len() && (#[trigger] old(self).invoice_records()[i]).id == id ==> old(self).invoice_records()[i].status
                    != InvoiceStatus::Funded,
        ensures
            final(self).wf(),
            status_move_outcome(old(self).invoice_records(), final(self).invoice_records(), id, to, r),
            final(self).invoice_ids() == old(self).invoice_ids(),
            final(self).investment_records() == old(self).investment_records(),
            final(self).active_investments() == old(self).active_investments(),
            final(self).bid_records() == old(self).bid_records(),
            final(self).escrow_records() == old(self).escrow_records(),
            final(self).fundings() == old(self).fundings(),
            final(self).dispute_records() == old(self).dispute_records(),
            final(self).next_investment_id() == old(self).next_investment_id(),
            final(self).next_escrow_id() == old(self).next_escrow_id(),
            final(self).bid_ttl() == old(self).bid_ttl(),
            final(self).bid_listing() == old(self).bid_listing(),
            final(self).invoice_limits() == old(self).invoice_limits(),
            final(self).fee_state() == old(self).fee_state(),
            final(self).contract_address() == old(self).contract_address(),
            final(self).business_records() == old(self).business_records(),
            final(self).investor_records() == old(self).investor_records(),
            final(self).accepted_currencies() == old(self).accepted_currencies(),
            final(self).admin() == old(self).admin(),
            final(self).protocol_setup() == old(self).protocol_setup(),
            final(self).events() == old(self).events(),
    {
        let ghost s = self.invoices.stored();
        let r = self.invoices.update_invoice_status(id, to);
        proof {
            if r is Ok {
                let i = choose|i: int|
                    {
                        &&& 0 <= i < s.len()
                        &&& #[trigger] s[i].id == id
                        &&& (r is Ok <==> crate::invoice::invoice_transition_allowed(s[i].status, to))
                        &&& r is Err ==> r == Err::<(), QuickLendXError>(QuickLendXError::InvalidStatus)
                        &&& r is Ok ==> self.invoices.stored() == s.update(i, Invoice { status: to, ..s[i] })
                    };
                assert(old(self).invoice_records()[i] == s[i]);
                lemma_links_unfunded_move(s, self.investments.stored(), self.funding@, i, to);
            }
        }
        r
    }

    /// Places a bid of `investor` on invoice `invoice_id`: fails first as
    /// `bid_gate_error` says; then the invoice must be verified,
    /// `InvoiceNotFound` or `InvalidStatus` otherwise; then as
    /// `placement_outcome` says. Nothing else changes.
    pub fn place_bid(
        &mut self,
        investor: Address,
        invoice_id: InvoiceId,
        bid_amount: i128,
        expected_return: i128,
        now: u64,
    ) -> (r: Result<u64, QuickLendXError>)
        requires
            old(self).wf(),
        ensures
            final(self).wf(),
            ({
                let s = old(self).invoice_records();
                let p = invoice_index(s, invoice_id);
                let gate = bid_gate_error(old(self).investor_records(), investor, bid_amount);
                &&& gate matches Some(e) ==> r == Err::<u64, QuickLendXError>(e) && final(self).bid_records() == old(self).bid_records() && final(self).bid_listing() == old(self).bid_listing()
                &&& gate is None && p < 0 ==> r == Err::<u64, QuickLendXError>(
                    QuickLendXError::InvoiceNotFound,
                ) && final(self).bid_records() == old(self).bid_records()
                &&& gate is None && p >= 0 && s[p].status != InvoiceStatus::Verified ==> r == Err::<
                    u64,
                    QuickLendXError,
                >(QuickLendXError::InvalidStatus) && final(self).bid_records() == old(self).bid_records()
                &&& gate is None && p >= 0 && s[p].status == InvoiceStatus::Verified ==> placement_outcome(
                    old(self).bid_records(),
                    old(self).bid_listing(),
                    old(self).bid_ttl(),
                    final(self).bid_records(),
                    final(self).bid_listing(),
                    investor,
                    invoice_id,
                    bid_amount,
                    expected_return,
                    now,
                    r,
                )
            }),
            final(self).bid_ttl() == old(self).bid_ttl(),
            final(self).invoice_records() == old(self).invoice_records(),
            final(self).invoice_ids() == old(self).invoice_ids(),
            final(self).investment_records() == old(self).investment_records(),
            final(self).active_investments() == old(self).active_investments(),
            final(self).escrow_records() == old(self).escrow_records(),
            final(self).fundings() == old(self).fundings(),
            final(self).dispute_records() == old(self).dispute_records(),
            final(self).next_investment_id() == old(self).next_investment_id(),
            final(self).next_escrow_id() == old(self).next_escrow_id(),
            final(self).invoice_limits() == old(self).invoice_limits(),
            final(self).fee_state() == old(self).fee_state(),
            final(self).contract_address() == old(self).contract_address(),
            final(self).business_records() == old(self).business_records(),
            final(self).investor_records() == old(self).investor_records(),
            final(self).accepted_currencies() == old(self).accepted_currencies(),
            final(self).admin() == old(self).admin(),
            final(self).protocol_setup() == old(self).protocol_setup(),
            r matches Ok(bid_id) ==> final(self).events() == old(self).events().push(
                MarketEvent::BidPlaced { bid_id, invoice_id, investor },
            ),
            r is Err ==> final(self).events() == old(self).events(),
    {
        if !self.investors.is_business_verified(investor) {
            return Err(QuickLendXError::InvestorNotVerified);
        }
        if bid_amount > self.investors.investment_limit_of(investor) {
            return Err(QuickLendXError::InvestmentLimitExceeded);
        }
        proof {
            lemma_invoice_index(self.invoices.stored(), invoice_id);
        }
        let p = match self.invoices.find(invoice_id) {
            Some(p) => p,
            None => {
                return Err(QuickLendXError::InvoiceNotFound);
            },
        };
        proof {
            lemma_invoice_index_unique(self.invoices.stored(), p as int);
        }
        if self.invoices.invoice_at(p).status != InvoiceStatus::Verified {
            return Err(QuickLendXError::InvalidStatus);
        }
        let r = self.bids.place_bid(investor, invoice_id, bid_amount, expected_return, now);
        if let Ok(bid_id) = r {
            self.events.push(MarketEvent::BidPlaced { bid_id, invoice_id, investor });
        }
        r
    }

    /// The investor that funded invoice `invoice_id` rates it: fails,
    /// changing nothing, with `InvoiceNotFound`, with `Unauthorized` unless
    /// the invoice was funded by `rater`, then as `rating_error` says;
    /// otherwise the rating is added to that invoice alone.
    pub fn add_invoice_rating(
        &mut self,
        invoice_id: InvoiceId,
        rating: u32,
        feedback: Vec<u8>,
        rater: Address,
        now: u64,
    ) -> (r: Result<(), QuickLendXError>)
        requires
            old(self).wf(),
        ensures
            final(self).wf(),
            ({
                let s = old(self).invoice_records();
                let p = invoice_index(s, invoice_id);
                let f = old(self).fundings();
                let k = funding_index(f, invoice_id);
                let allowed = k >= 0 && f[k].investor == rater;
                let fs = final(self).invoice_records();
                &&& p < 0 ==> r == Err::<(), QuickLendXError>(QuickLendXError::InvoiceNotFound)
                &&& p >= 0 && !allowed ==> r == Err::<(), QuickLendXError>(
                    QuickLendXError::Unauthorized,
                )
                &&& p >= 0 && allowed ==> (rating_error(s[p].status, rating, feedback@) matches Some(
                    e,
                ) ==> r == Err::<(), QuickLendXError>(e))
                &&& r is Ok <==> p >= 0 && allowed && rating_error(s[p].status, rating, feedback@) is None
                &&& r is Err ==> fs == s
                &&& r is Ok ==> {
                    &&& fs == s.update(p, fs[p])
                    &&& fs[p] == (Invoice { ratings: fs[p].ratings, ..s[p] })
                    &&& fs[p].ratings@.drop_last() == s[p].ratings@
                    &&& fs[p].ratings@.len() == s[p].ratings@.len() + 1
                    &&& fs[p].ratings@.last().rating == rating
                    &&& fs[p].ratings@.last().feedback@ == feedback@
                    &&& fs[p].ratings@.last().rated_by == rater
                    &&& fs[p].ratings@.last().rated_at == now
                }
            }),
            final(self).invoice_ids() == old(self).invoice_ids(),
            final(self).investment_records() == old(self).investment_records(),
            final(self).next_investment_id() == old(self).next_investment_id(),
            final(self).active_investments() == old(self).active_investments(),
            final(self).bid_records() == old(self).bid_records(),
            final(self).bid_listing() == old(self).bid_listing(),
            final(self).bid_ttl() == old(self).bid_ttl(),
            final(self).escrow_records() == old(self).escrow_records(),
            final(self).next_escrow_id() == old(self).next_escrow_id(),
            final(self).fundings() == old(self).fundings(),
            final(self).dispute_records() == old(self).dispute_records(),
            final(self).contract_address() == old(self).contract_address(),
            final(self).accepted_currencies() == old(self).accepted_currencies(),
            final(self).admin() == old(self).admin(),
            final(self).protocol_setup() == old(self).protocol_setup(),
            r is Ok ==> final(self).events() == old(self).events().push(
                MarketEvent::InvoiceRated { invoice_id, rating, rated_by: rater },
            ),
            r is Err ==> final(self).events() == old(self).events(),
            final(self).business_records() == old(self).business_records(),
            final(self).investor_records() == old(self).investor_records(),
            final(self).invoice_limits() == old(self).invoice_limits(),
            final(self).fee_state() == old(self).fee_state(),
    {
        proof {
            lemma_invoice_index(self.invoices.stored(), invoice_id);
        }
        let p = match self.invoices.find(invoice_id) {
            Some(p) => p,
            None => {
                return Err(QuickLendXError::InvoiceNotFound);
            },
        };
        proof {
            lemma_invoice_index_unique(self.invoices.stored(), p as int);
        }
        let allowed = match self.get_funding(invoice_id) {
            Some(f) => f.investor == rater,
            None => false,
        };
        if !allowed {
            return Err(QuickLendXError::Unauthorized);
        }
        let ghost s = self.invoices.stored();
        let r = self.invoices.rate_at(p, rating, feedback, rater, now);
        proof {
            if r is Ok {
                lemma_links_same_status(
                    s,
                    self.investments.stored(),
                    self.funding@,
                    p as int,
                    self.invoices.stored()[p as int],
                );
            }
        }
        if r.is_ok() {
            self.events.push(MarketEvent::InvoiceRated { invoice_id, rating, rated_by: rater });
        }
        r
    }

    /// The average, number, highest and lowest of the ratings of invoice
    /// `invoice_id`; `InvoiceNotFound` when no such invoice is stored.
    pub fn get_invoice_rating_stats(&self, invoice_id: InvoiceId) -> (r: Result<
        (Option<u32>, usize, Option<u32>, Option<u32>),
        QuickLendXError,
    >)
        requires
            self.wf(),
        ensures
            ({
                let s = self.invoice_records();
                let p = invoice_index(s, invoice_id);
                &&& p < 0 ==> r == Err::<(Option<u32>, usize, Option<u32>, Option<u32>), QuickLendXError>(
                    QuickLendXError::InvoiceNotFound,
                )
                &&& p >= 0 ==> r == Ok::<(Option<u32>, usize, Option<u32>, Option<u32>), QuickLendXError>(
                    (
                        average_rating_of(s[p].ratings@),
                        s[p].ratings@.len() as usize,
                        highest_rating(s[p].ratings@),
                        lowest_rating(s[p].ratings@),
                    ),
                )
            }),
    {
        match self.get_invoice(invoice_id) {
            Some(inv) => Ok(
                (inv.average_rating(), inv.total_ratings(), inv.get_highest_rating(), inv.get_lowest_rating()),
            ),
            None => Err(QuickLendXError::InvoiceNotFound),
        }
    }

    /// The events announced so far, oldest first.
    pub fn get_events(&self) -> (r: &Vec<MarketEvent>)
        ensures
            r@ == self.events(),
    {
        &self.events
    }

    /// The invoices, as their registry: the per-status counts and queries
    /// are read from it.
    pub fn invoice_registry(&self) -> (r: &InvoiceRegistry)
        requires
            self.wf(),
        ensures
            r.wf(),
            r.stored() == self.invoice_records(),
            r.id_allocator() == self.invoice_ids(),
    {
        &self.invoices
    }

    /// The application of business `business`, if any.
    pub fn get_business_verification_status(&self, business: Address) -> (r: Option<&BusinessVerification>)
        requires
            self.wf(),
        ensures
            ({
                let p = application_index(self.business_records(), business);
                &&& p < 0 ==> r is None
                &&& p >= 0 ==> r == Some(&self.business_records()[p])
            }),
    {
        self.businesses.get_verification(business)
    }

    /// The application of investor `investor`, if any.
    pub fn get_investor_verification(&self, investor: Address) -> (r: Option<&BusinessVerification>)
        requires
            self.wf(),
        ensures
            ({
                let p = application_index(self.investor_records(), investor);
                &&& p < 0 ==> r is None
                &&& p >= 0 ==> r == Some(&self.investor_records()[p])
            }),
    {
        self.investors.get_verification(investor)
    }

    /// Businesses whose application is pending, in the order they applied.
    pub fn get_pending_businesses(&self) -> (r: Vec<Address>)
        ensures
            r@ == applicants_with(self.business_records(), VerificationStatus::Pending),
    {
        self.businesses.get_applicants_by_status(VerificationStatus::Pending)
    }

    /// Verified businesses, in the order they applied.
    pub fn get_verified_businesses(&self) -> (r: Vec<Address>)
        ensures
            r@ == applicants_with(self.business_records(), VerificationStatus::Verified),
    {
        self.businesses.get_applicants_by_status(VerificationStatus::Verified)
    }

    /// Investors whose application is pending, in the order they applied.
    pub fn get_pending_investors(&self) -> (r: Vec<Address>)
        ensures
            r@ == applicants_with(self.investor_records(), VerificationStatus::Pending),
    {
        self.investors.get_applicants_by_status(VerificationStatus::Pending)
    }

    /// Verified investors, in the order they applied.
    pub fn get_verified_investors(&self) -> (r: Vec<Address>)
        ensures
            r@ == applicants_with(self.investor_records(), VerificationStatus::Verified),
    {
        self.investors.get_applicants_by_status(VerificationStatus::Verified)
    }

    /// The bid with identifier `bid_id`, if any.
    pub fn get_bid(&self, bid_id: u64) -> (r: Option<Bid>)
        ensures
            bid_id < self.bid_records().len() ==> r == Some(self.bid_records()[bid_id as int]),
            bid_id >= self.bid_records().len() ==> r is None,
    {
        self.bids.get_bid(bid_id)
    }

    /// The invoice with identifier `id`, if any.
    pub fn get_invoice(&self, id: InvoiceId) -> (r: Option<&Invoice>)
        requires
            self.wf(),
        ensures
            ({
                let p = invoice_index(self.invoice_records(), id);
                &&& p < 0 ==> r is None
                &&& p >= 0 ==> r == Some(&self.invoice_records()[p])
            }),
    {
        proof {
            lemma_invoice_index(self.invoices.stored(), id);
        }
        match self.invoices.find(id) {
            Some(p) => {
                proof {
                    lemma_invoice_index_unique(self.invoices.stored(), p as int);
                }
                Some(self.invoices.invoice_at(p))
            },
            None => None,
        }
    }
    /// Accepts bid `bid_id` on invoice `invoice_id` at `now` and funds the
    /// invoice: the investor's bid amount moves into escrow (given the
    /// investor's `balance` and the `allowance` it gave the protocol), the
    /// bid is accepted, the invoice becomes funded and an active investment
    /// is opened under the next investment identifier, which is returned
    /// with the transfer to perform. Fails as `accept_error` says, then with
    /// `OperationNotAllowed` when investment identifiers are exhausted, then
    /// as `create_escrow` does; nothing changes on failure.
    pub fn accept_bid_and_fund(
        &mut self,
        invoice_id: InvoiceId,
        bid_id: u64,
        now: u64,
        balance: i128,
        allowance: i128,
    ) -> (r: Result<(u64, Option<Transfer>), QuickLendXError>)
        requires
            old(self).wf(),
        ensures
            final(self).wf(),
            final(self).bid_ttl() == old(self).bid_ttl(),
            final(self).invoice_ids() == old(self).invoice_ids(),
            ({
                let s = old(self).invoice_records();
                let b = old(self).bid_records();
                let p = invoice_index(s, invoice_id);
                let bid = b[bid_id as int];
                let c = old(self).contract_address();
                let err = accept_error(s, b, invoice_id, bid_id, now);
                let id = old(self).next_investment_id();
                let terr = transfer_error(c, bid.investor, c, bid.bid_amount, balance, allowance);
                &&& err matches Some(e) ==> r == Err::<(u64, Option<Transfer>), QuickLendXError>(e)
                &&& err is None && id == u64::MAX ==> r == Err::<
                    (u64, Option<Transfer>),
                    QuickLendXError,
                >(QuickLendXError::OperationNotAllowed)
                &&& err is None && id < u64::MAX ==> (terr matches Some(e) ==> r == Err::<
                    (u64, Option<Transfer>),
                    QuickLendXError,
                >(e))
                &&& err is None && id < u64::MAX && terr is None && old(self).next_escrow_id()
                    > u64::MAX ==> r == Err::<(u64, Option<Transfer>), QuickLendXError>(
                    QuickLendXError::OperationNotAllowed,
                )
                &&& r is Ok <==> err is None && id < u64::MAX && terr is None && old(self).next_escrow_id() <= u64::MAX
                &&& r is Err ==> {
                    &&& final(self).invoice_records() == s
                    &&& final(self).bid_records() == b
                    &&& final(self).investment_records() == old(self).investment_records()
                    &&& final(self).active_investments() == old(self).active_investments()
                    &&& final(self).escrow_records() == old(self).escrow_records()
                    &&& final(self).fundings() == old(self).fundings()
                }
                &&& r is Ok ==> {
                    let eid = old(self).next_escrow_id() as u64;
                    &&& r == Ok::<(u64, Option<Transfer>), QuickLendXError>(
                        (
                            id,
                            if bid.investor == c {
                                None
                            } else {
                                Some(transfer_of(c, bid.investor, c, bid.bid_amount))
                            },
                        ),
                    )
                    &&& final(self).invoice_records() == s.update(
                        p,
                        Invoice { status: InvoiceStatus::Funded, ..s[p] },
                    )
                    &&& final(self).bid_records() == b.update(
                        bid_id as int,
                        Bid { status: BidStatus::Accepted, ..bid },
                    )
                    &&& final(self).escrow_records() == old(self).escrow_records().push(
                        new_escrow(
                            eid,
                            invoice_id,
                            bid.investor,
                            s[p].business,
                            bid.bid_amount,
                            s[p].currency,
                            now,
                        ),
                    )
                    &&& final(self).investment_records().len() == old(self).investment_records().len() + 1
                    &&& final(self).investment_records().drop_last() == old(self).investment_records()
                    &&& ({
                        let inv = final(self).investment_records().last();
                        &&& inv.investment_id == id
                        &&& inv.invoice_id == invoice_id
                        &&& inv.investor == bid.investor
                        &&& inv.amount == bid.bid_amount
                        &&& inv.funded_at == now
                        &&& inv.status == InvestmentStatus::Active
                        &&& inv.insurance@.len() == 0
                    })
                    &&& final(self).active_investments() == old(self).active_investments().push(id)
                    &&& final(self).fundings() == old(self).fundings().push(
                        Funding {
                            invoice_id,
                            investor: bid.investor,
                            funded_amount: bid.bid_amount,
                            funded_at: now,
                            investment_id: id,
                            escrow_id: eid,
                            total_paid: 0,
                            settled_at: None,
                        },
                    )
                }
            }),
            final(self).dispute_records() == old(self).dispute_records(),
            r is Err ==> final(self).next_investment_id() == old(self).next_investment_id(),
            r is Err ==> final(self).next_escrow_id() == old(self).next_escrow_id(),
            r is Ok ==> final(self).next_investment_id() == old(self).next_investment_id() + 1,
            r is Ok ==> final(self).next_escrow_id() == old(self).next_escrow_id() + 1,
            final(self).bid_listing() == old(self).bid_listing(),
            final(self).invoice_limits() == old(self).invoice_limits(),
            final(self).fee_state() == old(self).fee_state(),
            final(self).contract_address() == old(self).contract_address(),
            final(self).business_records() == old(self).business_records(),
            final(self).investor_records() == old(self).investor_records(),
            final(self).accepted_currencies() == old(self).accepted_currencies(),
            final(self).admin() == old(self).admin(),
            final(self).protocol_setup() == old(self).protocol_setup(),
            r is Ok ==> final(self).events() == old(self).events().push(
                MarketEvent::BidAccepted { bid_id, invoice_id },
            ).push(
                MarketEvent::EscrowCreated {
                    invoice_id,
                    escrow_id: old(self).next_escrow_id() as u64,
                    amount: old(self).bid_records()[bid_id as int].bid_amount,
                },
            ).push(
                MarketEvent::InvoiceFunded { invoice_id, investment_id: old(self).next_investment_id() },
            ),
            r is Err ==> final(self).events() == old(self).events(),
    {
        proof {
            lemma_invoice_index(self.invoices.stored(), invoice_id);
        }
        let p = match self.invoices.find(invoice_id) {
            Some(p) => p,
            None => {
                return Err(QuickLendXError::InvoiceNotFound);
            },
        };
        proof {
            lemma_invoice_index_unique(self.invoices.stored(), p as int);
        }
        let invoice = self.invoices.invoice_at(p);
        if invoice.status != InvoiceStatus::Verified {
            return Err(QuickLendXError::InvalidStatus);
        }
        let business = invoice.business;
        let currency = invoice.currency;
        let bid = match self.bids.get_bid(bid_id) {
            Some(b) => b,
            None => {
                return Err(QuickLendXError::StorageKeyNotFound);
            },
        };
        if bid.invoice_id != invoice_id || bid.status != BidStatus::Placed || now
            > bid.expiration_timestamp {
            return Err(QuickLendXError::InvalidStatus);
        }
        if !self.investments.has_free_id() {
            return Err(QuickLendXError::OperationNotAllowed);
        }
        let ghost s = self.invoices.stored();
        let ghost m = self.investments.stored();
        let ghost f = self.funding@;
        let ghost old_e = self.escrows.records();
        let ghost eid = self.escrows.next_identifier();
        let (escrow_id, transfer) = create_escrow(
            &mut self.escrows,
            self.contract,
            invoice_id,
            bid.investor,
            business,
            bid.bid_amount,
            currency,
            balance,
            allowance,
            now,
        )?;
        let investment_pos = self.investments.investment_count();
        let investment_id = self.investments.generate_unique_investment_id();
        let investment = Investment {
            investment_id,
            invoice_id,
            investor: bid.investor,
            amount: bid.bid_amount,
            funded_at: now,
            status: InvestmentStatus::Active,
            insurance: Vec::new(),
        };
        let ghost inv_spec = investment;
        let stored = self.investments.store_investment(investment);
        proof {
            assert(stored is Ok);
        }
        let accepted = self.bids.accept_bid(bid_id, now);
        proof {
            assert(accepted is Ok);
        }
        self.invoices.set_status_at(p, InvoiceStatus::Funded);
        let record = Funding {
            invoice_id,
            investor: bid.investor,
            funded_amount: bid.bid_amount,
            funded_at: now,
            investment_id,
            escrow_id,
            total_paid: 0,
            settled_at: None,
        };
        let entry = FundingEntry { record, invoice_pos: p, investment_pos };
        self.funding.push(entry);
        proof {
            assert(self.investments.stored() =~= m.push(inv_spec));
            lemma_links_fund(s, m, f, p as int, inv_spec, entry);
            assert(self.funding@.map_values(|e: FundingEntry| e.record) =~= f.map_values(
                |e: FundingEntry| e.record,
            ).push(record));
        }
        self.events.push(MarketEvent::BidAccepted { bid_id, invoice_id });
        self.events.push(MarketEvent::EscrowCreated { invoice_id, escrow_id, amount: bid.bid_amount });
        self.events.push(MarketEvent::InvoiceFunded { invoice_id, investment_id });
        Ok((investment_id, transfer))
    }
    /// Position of the funding record of invoice `invoice_id`, if any.
    fn find_funding(&self, invoice_id: InvoiceId) -> (r: Option<usize>)
        ensures
            r matches Some(k) ==> k < self.funding@.len() && self.funding@[k as int].record.invoice_id
                == invoice_id,
            r is None ==> forall|k: int|
                0 <= k < self.funding@.len() ==> (#[trigger] self.funding@[k]).record.invoice_id
                    != invoice_id,
    {
        let mut k: usize = 0;
        while k < self.funding.len()
            invariant
                0 <= k <= self.funding@.len(),
                forall|j: int| 0 <= j < k ==> (#[trigger] self.funding@[j]).record.invoice_id != invoice_id,
            decreases self.funding@.len() - k,
        {
            if self.funding[k].record.invoice_id == invoice_id {
                return Some(k);
            }
            k = k + 1;
        }
        None
    }

    /// Locates funded invoice `invoice_id`: its position and that of its
    /// funding record. `InvoiceNotFound` when no invoice carries the
    /// identifier; `InvoiceAlreadyDefaulted` when it is defaulted (if
    /// `defaulted_apart`); `InvalidStatus` when it is not funded.
    fn locate_funded(&self, invoice_id: InvoiceId, defaulted_apart: bool) -> (r: Result<(usize, usize), QuickLendXError>)
        requires
            self.wf(),
        ensures
            ({
                let s = self.invoice_records();
                let p = invoice_index(s, invoice_id);
                &&& p < 0 ==> r == Err::<(usize, usize), QuickLendXError>(QuickLendXError::InvoiceNotFound)
                &&& p >= 0 && defaulted_apart && s[p].status == InvoiceStatus::Defaulted ==> r == Err::<
                    (usize, usize),
                    QuickLendXError,
                >(QuickLendXError::InvoiceAlreadyDefaulted)
                &&& p >= 0 && !(defaulted_apart && s[p].status == InvoiceStatus::Defaulted) && s[p].status
                    != InvoiceStatus::Funded ==> r == Err::<(usize, usize), QuickLendXError>(
                    QuickLendXError::InvalidStatus,
                )
                &&& r is Ok <==> p >= 0 && s[p].status == InvoiceStatus::Funded
                &&& r matches Ok((pos, k)) ==> {
                    &&& pos == p
                    &&& k < self.funding@.len()
                    &&& self.funding@[k as int].invoice_pos == pos
                    &&& funding_index(self.fundings(), invoice_id) == k
                    &&& self.investments.stored()[self.funding@[k as int].investment_pos as int].status
                        == InvestmentStatus::Active
                    &&& investment_index(
                        self.investments.stored(),
                        self.fundings()[k as int].investment_id,
                    ) == self.funding@[k as int].investment_pos
                }
            }),
    {
        proof {
            lemma_invoice_index(self.invoices.stored(), invoice_id);
        }
        let p = match self.invoices.find(invoice_id) {
            Some(p) => p,
            None => {
                return Err(QuickLendXError::InvoiceNotFound);
            },
        };
        proof {
            lemma_invoice_index_unique(self.invoices.stored(), p as int);
        }
        let status = self.invoices.invoice_at(p).status;
        if defaulted_apart && status == InvoiceStatus::Defaulted {
            return Err(QuickLendXError::InvoiceAlreadyDefaulted);
        }
        if status != InvoiceStatus::Funded {
            return Err(QuickLendXError::InvalidStatus);
        }
        let ghost s = self.invoices.stored();
        let ghost f = self.funding@;
        proof {
            assert(funded_once(s[p as int].status));
            let w = choose|k: int| 0 <= k < f.len() && (#[trigger] f[k]).invoice_pos == p;
            assert(entry_ok(s, self.investments.stored(), f[w]));
        }
        match self.find_funding(invoice_id) {
            Some(k) => {
                proof {
                    let w = choose|k: int| 0 <= k < f.len() && (#[trigger] f[k]).invoice_pos == p;
                    assert(entry_ok(s, self.investments.stored(), f[w]));
                    lemma_records_distinct(s, self.investments.stored(), f);
                    assert(f[k as int].record.invoice_id == f[w].record.invoice_id);
                    assert(k == w);
                    let fr = self.fundings();
                    assert forall|a: int, b: int|
                        0 <= a < fr.len() && 0 <= b < fr.len() && a != b implies (
                    #[trigger] fr[a]).invoice_id != (#[trigger] fr[b]).invoice_id by {
                        assert(fr[a] == f[a].record && fr[b] == f[b].record);
                    }
                    lemma_funding_index_unique(fr, k as int);
                    assert(entry_ok(s, self.investments.stored(), f[k as int]));
                    lemma_investment_index_unique(
                        self.investments.stored(),
                        f[k as int].investment_pos as int,
                    );
                }
                Ok((p, k))
            },
            None => {
                proof {
                    let w = choose|k: int| 0 <= k < f.len() && (#[trigger] f[k]).invoice_pos == p;
                    assert(entry_ok(s, self.investments.stored(), f[w]));
                    assert(f[w].record.invoice_id == invoice_id);
                }
                Err(QuickLendXError::InvalidStatus)
            },
        }
    }

    /// Closes the funded invoice of record `k` to `invoice_to` and its
    /// investment to `investment_to`.
    fn close_funding(&mut self, k: usize, invoice_to: InvoiceStatus, investment_to: InvestmentStatus)
        requires
            old(self).wf(),
            k < old(self).funding@.len(),
            old(self).investments.stored()[old(self).funding@[k as int].investment_pos as int].status
                == InvestmentStatus::Active,
            may_carry_funding(invoice_to),
            invoice_to != InvoiceStatus::Funded,
            investment_to != InvestmentStatus::Active,
        ensures
            final(self).wf(),
            ({
                let e = old(self).funding@[k as int];
                &&& final(self).invoices.stored() == old(self).invoices.stored().update(
                    e.invoice_pos as int,
                    Invoice { status: invoice_to, ..old(self).invoices.stored()[e.invoice_pos as int] },
                )
                &&& final(self).investments.stored() == old(self).investments.stored().update(
                    e.investment_pos as int,
                    Investment {
                        status: investment_to,
                        ..old(self).investments.stored()[e.investment_pos as int]
                    },
                )
                &&& !final(self).investments.active_index().contains(e.record.investment_id)
                &&& forall|x: u64|
                    x != e.record.investment_id ==> (final(self).investments.active_index().contains(x)
                        <==> old(self).investments.active_index().contains(x))
            }),
            final(self).funding@ == old(self).funding@,
            final(self).invoices.id_allocator() == old(self).invoices.id_allocator(),
            final(self).investments.next_identifier() == old(self).investments.next_identifier(),
            final(self).bids == old(self).bids,
            final(self).escrows == old(self).escrows,
            final(self).fees == old(self).fees,
            final(self).contract == old(self).contract,
            final(self).limits == old(self).limits,
            final(self).disputes == old(self).disputes,
            final(self).businesses == old(self).businesses,
            final(self).investors == old(self).investors,
            final(self).currencies == old(self).currencies,
            final(self).admin == old(self).admin,
            final(self).setup == old(self).setup,
            final(self).events == old(self).events,
    {
        let e = self.funding[k];
        let ghost s = self.invoices.stored();
        let ghost m = self.investments.stored();
        proof {
            assert(entry_ok(s, m, self.funding@[k as int]));
            assert(m[e.investment_pos as int].investment_id == e.record.investment_id);
            assert(has_id(m, e.record.investment_id));
            assert(crate::investment_storage::is_active_id(m, e.record.investment_id));
        }
        let r = self.investments.update_investment_status(e.record.investment_id, investment_to);
        proof {
            assert(r is Ok);
            let i = choose|i: int|
                0 <= i < m.len() && m[i].investment_id == e.record.investment_id
                    && self.investments.stored() == m.update(
                    i,
                    Investment { status: investment_to, ..m[i] },
                );
            assert(i == e.investment_pos);
        }
        self.invoices.set_status_at(e.invoice_pos, invoice_to);
        proof {
            lemma_links_close(s, m, self.funding@, k as int, invoice_to, investment_to);
        }
    }

    /// Settles funded invoice `invoice_id` with a final payment of
    /// `payment_amount` from its business at `now`, given the business's
    /// `balance` and the `allowance` it gave the protocol. The payments must
    /// cover the invoice amount. The invoice becomes paid and its
    /// investment completed; the investor is owed the payments less the
    /// platform fee on the profit. Returns the transfer in from the business,
    /// the investor's return, the platform fee, and the payout to the
    /// investor. Fails, changing nothing, with `InvoiceNotFound`,
    /// `InvalidStatus` (not funded), `InvalidAmount` (a payment that is not
    /// positive, or payments short of the amount), or as `transfer_funds`.
    pub fn settle_invoice(
        &mut self,
        invoice_id: InvoiceId,
        payment_amount: i128,
        now: u64,
        balance: i128,
        allowance: i128,
    ) -> (r: Result<Settlement, QuickLendXError>)
        requires
            old(self).wf(),
        ensures
            final(self).wf(),
            final(self).invoice_ids() == old(self).invoice_ids(),
            final(self).bid_records() == old(self).bid_records(),
            final(self).escrow_records() == old(self).escrow_records(),
            ({
                let s = old(self).invoice_records();
                let m = old(self).investment_records();
                let f = old(self).fundings();
                let p = invoice_index(s, invoice_id);
                let k = funding_index(f, invoice_id);
                let c = old(self).contract_address();
                let total = f[k].total_paid + payment_amount;
                let q = investment_index(m, f[k].investment_id);
                let fee = platform_fee_on(
                    f[k].funded_amount as int,
                    total,
                    effective_fee_bps(old(self).fee_state().platform_config()) as int,
                );
                &&& p < 0 ==> r == Err::<Settlement, QuickLendXError>(QuickLendXError::InvoiceNotFound)
                &&& p >= 0 && s[p].status != InvoiceStatus::Funded ==> r == Err::<
                    Settlement,
                    QuickLendXError,
                >(QuickLendXError::InvalidStatus)
                &&& p >= 0 && s[p].status == InvoiceStatus::Funded && (payment_amount <= 0 || total
                    < s[p].amount || total > i128::MAX) ==> r == Err::<Settlement, QuickLendXError>(
                    QuickLendXError::InvalidAmount,
                )
                &&& p >= 0 && s[p].status == InvoiceStatus::Funded && payment_amount > 0 && s[p].amount
                    <= total <= i128::MAX ==> (transfer_error(
                    c,
                    s[p].business,
                    c,
                    payment_amount,
                    balance,
                    allowance,
                ) matches Some(e) ==> r == Err::<Settlement, QuickLendXError>(e))
                &&& r is Ok <==> p >= 0 && s[p].status == InvoiceStatus::Funded && payment_amount > 0
                    && s[p].amount <= total <= i128::MAX && transfer_error(
                    c,
                    s[p].business,
                    c,
                    payment_amount,
                    balance,
                    allowance,
                ) is None
                &&& r is Err ==> final(self).invoice_records() == s && final(self).investment_records()
                    == m && final(self).fundings() == f && final(self).active_investments() == old(self).active_investments()
                &&& r matches Ok(st) ==> {
                    &&& st.platform_fee == fee
                    &&& st.investor_return == total - fee
                    &&& st.payment == if s[p].business == c {
                        None
                    } else {
                        Some(transfer_of(c, s[p].business, c, payment_amount))
                    }
                    &&& st.payout == if f[k].investor == c || st.investor_return <= 0 {
                        None
                    } else {
                        Some(transfer_of(c, c, f[k].investor, st.investor_return))
                    }
                    &&& final(self).invoice_records() == s.update(
                        p,
                        Invoice { status: InvoiceStatus::Paid, ..s[p] },
                    )
                    &&& final(self).investment_records() == m.update(
                        q,
                        Investment { status: InvestmentStatus::Completed, ..m[q] },
                    )
                    &&& final(self).fundings() == f.update(
                        k,
                        Funding { total_paid: total as i128, settled_at: Some(now), ..f[k] },
                    )
                    &&& !final(self).active_investments().contains(f[k].investment_id)
                    &&& forall|x: u64|
                        x != f[k].investment_id ==> (final(self).active_investments().contains(x)
                            <==> old(self).active_investments().contains(x))
                }
            }),
            final(self).dispute_records() == old(self).dispute_records(),
            final(self).next_investment_id() == old(self).next_investment_id(),
            final(self).next_escrow_id() == old(self).next_escrow_id(),
            final(self).bid_ttl() == old(self).bid_ttl(),
            final(self).bid_listing() == old(self).bid_listing(),
            final(self).invoice_limits() == old(self).invoice_limits(),
            final(self).fee_state() == old(self).fee_state(),
            final(self).contract_address() == old(self).contract_address(),
            final(self).business_records() == old(self).business_records(),
            final(self).investor_records() == old(self).investor_records(),
            final(self).accepted_currencies() == old(self).accepted_currencies(),
            final(self).admin() == old(self).admin(),
            final(self).protocol_setup() == old(self).protocol_setup(),
            r is Ok ==> final(self).events() == old(self).events().push(
                MarketEvent::InvoiceSettled { invoice_id },
            ),
            r is Err ==> final(self).events() == old(self).events(),
    {
        let (p, k) = self.locate_funded(invoice_id, false)?;
        if payment_amount <= 0 {
            return Err(QuickLendXError::InvalidAmount);
        }
        let e = self.funding[k];
        let invoice = self.invoices.invoice_at(p);
        let business = invoice.business;
        let amount = invoice.amount;
        let total = match e.record.total_paid.checked_add(payment_amount) {
            Some(t) => t,
            None => {
                return Err(QuickLendXError::InvalidAmount);
            },
        };
        if total < amount {
            return Err(QuickLendXError::InvalidAmount);
        }
        let payment = transfer_funds(self.contract, business, self.contract, payment_amount, balance, allowance)?;
        let (investor_return, platform_fee) = self.fees.calculate_platform_fee(e.record.funded_amount, total);
        let payout = if e.record.investor == self.contract || investor_return <= 0 {
            None
        } else {
            Some(Transfer { from: self.contract, to: e.record.investor, amount: investor_return, from_allowance: false })
        };
        let ghost f = self.funding@;
        self.close_funding(k, InvoiceStatus::Paid, InvestmentStatus::Completed);
        let record = Funding { total_paid: total, settled_at: Some(now), ..e.record };
        self.funding.set(k, FundingEntry { record, ..e });
        proof {
            lemma_links_record(self.invoices.stored(), self.investments.stored(), f, k as int, record);
            assert(self.funding@.map_values(|x: FundingEntry| x.record) =~= f.map_values(
                |x: FundingEntry| x.record,
            ).update(k as int, record));
        }
        self.events.push(MarketEvent::InvoiceSettled { invoice_id });
        Ok(Settlement { payment, investor_return, platform_fee, payout })
    }
    /// Records a partial payment of `amount` on funded invoice `invoice_id`
    /// from its business, given the business's `balance` and the
    /// `allowance` it gave the protocol; returns the transfer in. The
    /// payments so far must stay short of the invoice amount (settlement
    /// completes it); the invoice stays funded and its investment active.
    /// Fails, changing nothing, with `InvoiceNotFound`, `InvalidStatus` (not
    /// funded), `InvalidAmount` (not positive, or reaching the amount), or
    /// as `transfer_funds`.
    pub fn process_partial_payment(
        &mut self,
        invoice_id: InvoiceId,
        amount: i128,
        balance: i128,
        allowance: i128,
    ) -> (r: Result<Option<Transfer>, QuickLendXError>)
        requires
            old(self).wf(),
        ensures
            final(self).wf(),
            final(self).invoice_records() == old(self).invoice_records(),
            final(self).invoice_ids() == old(self).invoice_ids(),
            final(self).investment_records() == old(self).investment_records(),
            final(self).active_investments() == old(self).active_investments(),
            final(self).bid_records() == old(self).bid_records(),
            final(self).escrow_records() == old(self).escrow_records(),
            ({
                let s = old(self).invoice_records();
                let f = old(self).fundings();
                let p = invoice_index(s, invoice_id);
                let k = funding_index(f, invoice_id);
                let c = old(self).contract_address();
                let total = f[k].total_paid + amount;
                &&& p < 0 ==> r == Err::<Option<Transfer>, QuickLendXError>(QuickLendXError::InvoiceNotFound)
                &&& p >= 0 && s[p].status != InvoiceStatus::Funded ==> r == Err::<
                    Option<Transfer>,
                    QuickLendXError,
                >(QuickLendXError::InvalidStatus)
                &&& p >= 0 && s[p].status == InvoiceStatus::Funded && (amount <= 0 || total >= s[p].amount)
                    ==> r == Err::<Option<Transfer>, QuickLendXError>(QuickLendXError::InvalidAmount)
                &&& p >= 0 && s[p].status == InvoiceStatus::Funded && amount > 0 && total < s[p].amount
                    ==> (transfer_error(c, s[p].business, c, amount, balance, allowance) matches Some(e)
                    ==> r == Err::<Option<Transfer>, QuickLendXError>(e))
                &&& r is Ok <==> p >= 0 && s[p].status == InvoiceStatus::Funded && amount > 0 && total
                    < s[p].amount && transfer_error(c, s[p].business, c, amount, balance, allowance) is None
                &&& r is Err ==> final(self).fundings() == f
                &&& r is Ok ==> {
                    &&& r == Ok::<Option<Transfer>, QuickLendXError>(
                        if s[p].business == c {
                            None
                        } else {
                            Some(transfer_of(c, s[p].business, c, amount))
                        },
                    )
                    &&& final(self).fundings() == f.update(
                        k,
                        Funding { total_paid: total as i128, ..f[k] },
                    )
                }
            }),
            final(self).dispute_records() == old(self).dispute_records(),
            final(self).next_investment_id() == old(self).next_investment_id(),
            final(self).next_escrow_id() == old(self).next_escrow_id(),
            final(self).bid_ttl() == old(self).bid_ttl(),
            final(self).bid_listing() == old(self).bid_listing(),
            final(self).invoice_limits() == old(self).invoice_limits(),
            final(self).fee_state() == old(self).fee_state(),
            final(self).contract_address() == old(self).contract_address(),
            final(self).business_records() == old(self).business_records(),
            final(self).investor_records() == old(self).investor_records(),
            final(self).accepted_currencies() == old(self).accepted_currencies(),
            final(self).admin() == old(self).admin(),
            final(self).protocol_setup() == old(self).protocol_setup(),
            final(self).events() == old(self).events(),
    {
        let (p, k) = self.locate_funded(invoice_id, false)?;
        if amount <= 0 {
            return Err(QuickLendXError::InvalidAmount);
        }
        let e = self.funding[k];
        let invoice = self.invoices.invoice_at(p);
        let business = invoice.business;
        let total = match e.record.total_paid.checked_add(amount) {
            Some(t) => t,
            None => {
                return Err(QuickLendXError::InvalidAmount);
            },
        };
        if total >= invoice.amount {
            return Err(QuickLendXError::InvalidAmount);
        }
        let payment = transfer_funds(self.contract, business, self.contract, amount, balance, allowance)?;
        let ghost f = self.funding@;
        let record = Funding { total_paid: total, ..e.record };
        self.funding.set(k, FundingEntry { record, ..e });
        proof {
            lemma_links_record(self.invoices.stored(), self.investments.stored(), f, k as int, record);
            assert(self.funding@.map_values(|x: FundingEntry| x.record) =~= f.map_values(
                |x: FundingEntry| x.record,
            ).update(k as int, record));
        }
        Ok(payment)
    }

    /// Checks whether invoice `invoice_id` has expired: a funded invoice
    /// whose grace period (see `grace_in_force`) has passed at `now` is
    /// defaulted together with its investment, as `mark_invoice_defaulted`
    /// does, and the answer is `true`; otherwise nothing changes and the
    /// answer is `false`. `InvoiceNotFound`, changing nothing, when no such
    /// invoice is stored.
    pub fn check_invoice_expiration(&mut self, invoice_id: InvoiceId, grace: Option<u64>, now: u64) -> (r:
        Result<bool, QuickLendXError>)
        requires
            old(self).wf(),
        ensures
            final(self).wf(),
            ({
                let s = old(self).invoice_records();
                let m = old(self).investment_records();
                let f = old(self).fundings();
                let p = invoice_index(s, invoice_id);
                let k = funding_index(f, invoice_id);
                let q = investment_index(m, f[k].investment_id);
                let expired = p >= 0 && past_grace(s[p], grace_in_force(grace, old(self).invoice_limits()), now);
                &&& p < 0 ==> r == Err::<bool, QuickLendXError>(QuickLendXError::InvoiceNotFound)
                &&& p >= 0 ==> r == Ok::<bool, QuickLendXError>(expired)
                &&& !expired ==> final(self).invoice_records() == s && final(self).investment_records()
                    == m && final(self).active_investments() == old(self).active_investments()
                    && final(self).events() == old(self).events()
                &&& expired ==> {
                    &&& final(self).invoice_records() == s.update(
                        p,
                        Invoice { status: InvoiceStatus::Defaulted, ..s[p] },
                    )
                    &&& final(self).investment_records() == m.update(
                        q,
                        Investment { status: InvestmentStatus::Defaulted, ..m[q] },
                    )
                    &&& !final(self).active_investments().contains(f[k].investment_id)
                    &&& forall|x: u64|
                        x != f[k].investment_id ==> (final(self).active_investments().contains(x)
                            <==> old(self).active_investments().contains(x))
                    &&& final(self).events() == old(self).events().push(
                        MarketEvent::InvoiceDefaulted { invoice_id },
                    )
                }
            }),
            final(self).invoice_ids() == old(self).invoice_ids(),
            final(self).bid_records() == old(self).bid_records(),
            final(self).escrow_records() == old(self).escrow_records(),
            final(self).fundings() == old(self).fundings(),
            final(self).dispute_records() == old(self).dispute_records(),
            final(self).next_investment_id() == old(self).next_investment_id(),
            final(self).next_escrow_id() == old(self).next_escrow_id(),
            final(self).bid_ttl() == old(self).bid_ttl(),
            final(self).bid_listing() == old(self).bid_listing(),
            final(self).invoice_limits() == old(self).invoice_limits(),
            final(self).fee_state() == old(self).fee_state(),
            final(self).contract_address() == old(self).contract_address(),
            final(self).business_records() == old(self).business_records(),
            final(self).investor_records() == old(self).investor_records(),
            final(self).accepted_currencies() == old(self).accepted_currencies(),
            final(self).admin() == old(self).admin(),
            final(self).protocol_setup() == old(self).protocol_setup(),
    {
        match self.mark_invoice_defaulted(invoice_id, grace, now) {
            Ok(()) => Ok(true),
            Err(QuickLendXError::InvoiceNotFound) => Err(QuickLendXError::InvoiceNotFound),
            Err(_) => Ok(false),
        }
    }

    /// Defaults funded invoice `invoice_id` once its grace period (see
    /// `grace_in_force`) has passed at `now`; its investment is defaulted
    /// too. Fails, changing nothing, with `InvoiceNotFound`,
    /// `InvoiceAlreadyDefaulted`, `InvalidStatus` (not funded) or
    /// `OperationNotAllowed` (grace period not over).
    pub fn mark_invoice_defaulted(&mut self, invoice_id: InvoiceId, grace: Option<u64>, now: u64) -> (r: Result<
        (),
        QuickLendXError,
    >)
        requires
            old(self).wf(),
        ensures
            final(self).wf(),
            final(self).invoice_ids() == old(self).invoice_ids(),
            final(self).bid_records() == old(self).bid_records(),
            final(self).escrow_records() == old(self).escrow_records(),
            final(self).fundings() == old(self).fundings(),
            ({
                let s = old(self).invoice_records();
                let m = old(self).investment_records();
                let f = old(self).fundings();
                let p = invoice_index(s, invoice_id);
                let k = funding_index(f, invoice_id);
                let q = investment_index(m, f[k].investment_id);
                &&& p < 0 ==> r == Err::<(), QuickLendXError>(QuickLendXError::InvoiceNotFound)
                &&& p >= 0 && s[p].status == InvoiceStatus::Defaulted ==> r == Err::<(), QuickLendXError>(
                    QuickLendXError::InvoiceAlreadyDefaulted,
                )
                &&& p >= 0 && s[p].status != InvoiceStatus::Defaulted && s[p].status
                    != InvoiceStatus::Funded ==> r == Err::<(), QuickLendXError>(
                    QuickLendXError::InvalidStatus,
                )
                &&& p >= 0 && s[p].status == InvoiceStatus::Funded && !past_grace(
                    s[p],
                    grace_in_force(grace, old(self).invoice_limits()),
                    now,
                ) ==> r == Err::<(), QuickLendXError>(QuickLendXError::OperationNotAllowed)
                &&& r is Ok <==> p >= 0 && past_grace(s[p], grace_in_force(grace, old(self).invoice_limits()), now)
                &&& r is Err ==> final(self).invoice_records() == s && final(self).investment_records()
                    == m && final(self).active_investments() == old(self).active_investments()
                &&& r is Ok ==> {
                    &&& final(self).invoice_records() == s.update(
                        p,
                        Invoice { status: InvoiceStatus::Defaulted, ..s[p] },
                    )
                    &&& final(self).investment_records() == m.update(
                        q,
                        Investment { status: InvestmentStatus::Defaulted, ..m[q] },
                    )
                    &&& !final(self).active_investments().contains(f[k].investment_id)
                    &&& forall|x: u64|
                        x != f[k].investment_id ==> (final(self).active_investments().contains(x)
                            <==> old(self).active_investments().contains(x))
                }
            }),
            final(self).dispute_records() == old(self).dispute_records(),
            final(self).next_investment_id() == old(self).next_investment_id(),
            final(self).next_escrow_id() == old(self).next_escrow_id(),
            final(self).bid_ttl() == old(self).bid_ttl(),
            final(self).bid_listing() == old(self).bid_listing(),
            final(self).invoice_limits() == old(self).invoice_limits(),
            final(self).fee_state() == old(self).fee_state(),
            final(self).contract_address() == old(self).contract_address(),
            final(self).business_records() == old(self).business_records(),
            final(self).investor_records() == old(self).investor_records(),
            final(self).accepted_currencies() == old(self).accepted_currencies(),
            final(self).admin() == old(self).admin(),
            final(self).protocol_setup() == old(self).protocol_setup(),
            r is Ok ==> final(self).events() == old(self).events().push(
                MarketEvent::InvoiceDefaulted { invoice_id },
            ),
            r is Err ==> final(self).events() == old(self).events(),
    {
        let g: u64 = match grace {
            Some(g) => g,
            None => self.limits.grace_period_seconds,
        };
        let (p, k) = self.locate_funded(invoice_id, true)?;
        let due = self.invoices.invoice_at(p).due_date;
        let past = match due.checked_add(g) {
            Some(deadline) => now > deadline,
            None => false,
        };
        if !past {
            return Err(QuickLendXError::OperationNotAllowed);
        }
        self.close_funding(k, InvoiceStatus::Defaulted, InvestmentStatus::Defaulted);
        self.events.push(MarketEvent::InvoiceDefaulted { invoice_id });
        Ok(())
    }

    /// Position of the funding record of the invoice at position `pos`, if
    /// any.
    fn find_entry_at(&self, pos: usize) -> (r: Option<usize>)
        ensures
            r matches Some(k) ==> k < self.funding@.len() && self.funding@[k as int].invoice_pos == pos,
            r is None ==> forall|k: int|
                0 <= k < self.funding@.len() ==> (#[trigger] self.funding@[k]).invoice_pos != pos,
    {
        let mut k: usize = 0;
        while k < self.funding.len()
            invariant
                0 <= k <= self.funding@.len(),
                forall|j: int| 0 <= j < k ==> (#[trigger] self.funding@[j]).invoice_pos != pos,
            decreases self.funding@.len() - k,
        {
            if self.funding[k].invoice_pos == pos {
                return Some(k);
            }
            k = k + 1;
        }
        None
    }

    /// Defaults, in upload order, the funded invoices whose grace period
    /// (the one in the protocol limits) has passed at `now`, at most `limit` of
    /// them, together with their investments, and returns how many it
    /// defaulted, as `sweep_outcome` says.
    pub fn handle_overdue_invoices(&mut self, limit: u32, now: u64) -> (r: u32)
        requires
            old(self).wf(),
        ensures
            final(self).wf(),
            sweep_outcome(
                old(self).invoice_records(),
                old(self).investment_records(),
                old(self).fundings(),
                old(self).active_investments(),
                final(self).invoice_records(),
                final(self).investment_records(),
                final(self).active_investments(),
                old(self).invoice_limits().grace_period_seconds,
                limit,
                now,
                r,
            ),
            final(self).fundings() == old(self).fundings(),
            final(self).invoice_ids() == old(self).invoice_ids(),
            final(self).bid_records() == old(self).bid_records(),
            final(self).escrow_records() == old(self).escrow_records(),
            final(self).dispute_records() == old(self).dispute_records(),
            final(self).next_investment_id() == old(self).next_investment_id(),
            final(self).next_escrow_id() == old(self).next_escrow_id(),
            final(self).bid_ttl() == old(self).bid_ttl(),
            final(self).bid_listing() == old(self).bid_listing(),
            final(self).invoice_limits() == old(self).invoice_limits(),
            final(self).fee_state() == old(self).fee_state(),
            final(self).contract_address() == old(self).contract_address(),
            final(self).business_records() == old(self).business_records(),
            final(self).investor_records() == old(self).investor_records(),
            final(self).accepted_currencies() == old(self).accepted_currencies(),
            final(self).admin() == old(self).admin(),
            final(self).protocol_setup() == old(self).protocol_setup(),
            final(self).events().len() == old(self).events().len() + r,
            defaults_announced(
                old(self).events(),
                final(self).events(),
                old(self).invoice_records(),
                old(self).invoice_limits().grace_period_seconds,
                now,
                limit as nat,
            ),
    {
        let ghost s = self.invoices.stored();
        let ghost m = self.investments.stored();
        let ghost f = self.funding@;
        let ghost a = self.investments.active_index();
        let ghost lim = limit as nat;
        let grace = self.limits.grace_period_seconds;
        let ghost g = grace;
        proof {
            lemma_sweep_start(s, m, f, a, g, now, lim);
            reveal(defaults_announced);
        }
        let n = self.invoices.get_total_invoice_count();
        let mut count: u32 = 0;
        let mut i: usize = 0;
        while i < n
            invariant
                self.wf(),
                n == s.len(),
                0 <= i <= n,
                g == grace,
                grace == old(self).limits.grace_period_seconds,
                lim == limit as nat,
                self.funding@ == f,
                links_ok(s, m, f),
                self.invoices.id_allocator() == old(self).invoices.id_allocator(),
                self.bids == old(self).bids,
                self.escrows == old(self).escrows,
                self.disputes == old(self).disputes,
                self.investments.next_identifier() == old(self).investments.next_identifier(),
                self.limits == old(self).limits,
                self.fees == old(self).fees,
                self.contract == old(self).contract,
                self.businesses == old(self).businesses,
                self.investors == old(self).investors,
                self.currencies == old(self).currencies,
                self.admin == old(self).admin,
                self.setup == old(self).setup,
                self.events@.len() == old(self).events@.len() + count,
                defaults_announced(old(self).events@, self.events@, s, g, now, lim),
                sweep_invoices_done(self.invoices.stored(), s, i as int, g, now, lim),
                sweep_investments_done(self.investments.stored(), m, f, s, i as int, g, now, lim),
                sweep_active_done(self.investments.active_index(), a, f, s, i as int, g, now, lim),
                count == if past_grace_count(s.take(i as int), g, now) < lim {
                    past_grace_count(s.take(i as int), g, now)
                } else {
                    lim
                },
            decreases n - i,
        {
            proof {
                lemma_past_grace_count_step(s, i as int, g, now);
                lemma_sweep_pending(self.invoices.stored(), s, i as int, g, now, lim);
            }
            let inv = self.invoices.invoice_at(i);
            let inv_id = inv.id;
            proof {
                assert(inv_id == s[i as int].id);
            }
            let past = inv.status == InvoiceStatus::Funded && match inv.due_date.checked_add(
                grace,
            ) {
                Some(deadline) => now > deadline,
                None => false,
            };
            proof {
                assert(self.invoices.stored()[i as int] == s[i as int]);
            }
            if past && count < limit {
                let ghost cs = self.invoices.stored();
                let ghost cm = self.investments.stored();
                let ghost ca = self.investments.active_index();
                let k = match self.find_entry_at(i) {
                    Some(k) => k,
                    None => {
                        proof {
                            assert(funded_once(cs[i as int].status));
                            let w = choose|w: int| 0 <= w < f.len() && (#[trigger] f[w]).invoice_pos == i;
                        }
                        return count;
                    },
                };
                proof {
                    assert(entry_ok(cs, cm, f[k as int]));
                }
                self.close_funding(k, InvoiceStatus::Defaulted, InvestmentStatus::Defaulted);
                let ghost old_events = self.events@;
                self.events.push(MarketEvent::InvoiceDefaulted { invoice_id: inv_id });
                proof {
                    assert(swept(s, i as int, g, now, lim));
                    lemma_default_event_recorded(
                        old(self).events@,
                        old_events,
                        self.events@,
                        s,
                        i as int,
                        g,
                        now,
                        lim,
                    );
                }
                count = count + 1;
                proof {
                    lemma_sweep_step_default(
                        s,
                        m,
                        f,
                        a,
                        cs,
                        cm,
                        ca,
                        self.invoices.stored(),
                        self.investments.stored(),
                        self.investments.active_index(),
                        i as int,
                        k as int,
                        g,
                        now,
                        lim,
                    );
                }
            } else {
                proof {
                    lemma_sweep_step_skip(
                        s,
                        m,
                        f,
                        a,
                        self.invoices.stored(),
                        self.investments.stored(),
                        self.investments.active_index(),
                        i as int,
                        g,
                        now,
                        lim,
                    );
                }
            }
            i = i + 1;
        }
        proof {
            let fr = self.fundings();
            assert forall|k: int| 0 <= k < f.len() implies #[trigger] fr[k] == f[k].record by {}
            assert(fr =~= f.map_values(|e: FundingEntry| e.record));
            lemma_sweep_finish(
                s,
                m,
                f,
                a,
                self.invoices.stored(),
                self.investments.stored(),
                self.investments.active_index(),
                g,
                now,
                lim,
                count,
            );
        }
        proof {
            assert(s == old(self).invoice_records());
            assert(g == old(self).invoice_limits().grace_period_seconds);
            assert(defaults_announced(old(self).events@, self.events@, s, g, now, lim));
        }
        count
    }

    /// Refunds the escrow of funded invoice `invoice_id` to its investor
    /// (the protocol holding `contract_balance`); the invoice and its
    /// investment become refunded, as `escrow_refund_outcome` says. Returns
    /// the transfer to perform.
    pub fn refund_escrow_funds(&mut self, invoice_id: InvoiceId, contract_balance: i128) -> (r: Result<
        Option<Transfer>,
        QuickLendXError,
    >)
        requires
            old(self).wf(),
        ensures
            final(self).wf(),
            escrow_refund_outcome(
                old(self).invoice_records(),
                old(self).investment_records(),
                old(self).fundings(),
                old(self).escrow_records(),
                old(self).active_investments(),
                old(self).contract_address(),
                final(self).invoice_records(),
                final(self).investment_records(),
                final(self).escrow_records(),
                final(self).active_investments(),
                invoice_id,
                contract_balance,
                InvoiceStatus::Refunded,
                r,
            ),
            final(self).invoice_ids() == old(self).invoice_ids(),
            final(self).bid_records() == old(self).bid_records(),
            final(self).fundings() == old(self).fundings(),
            final(self).dispute_records() == old(self).dispute_records(),
            final(self).next_investment_id() == old(self).next_investment_id(),
            final(self).next_escrow_id() == old(self).next_escrow_id(),
            final(self).bid_ttl() == old(self).bid_ttl(),
            final(self).bid_listing() == old(self).bid_listing(),
            final(self).invoice_limits() == old(self).invoice_limits(),
            final(self).fee_state() == old(self).fee_state(),
            final(self).contract_address() == old(self).contract_address(),
            final(self).business_records() == old(self).business_records(),
            final(self).investor_records() == old(self).investor_records(),
            final(self).accepted_currencies() == old(self).accepted_currencies(),
            final(self).admin() == old(self).admin(),
            final(self).protocol_setup() == old(self).protocol_setup(),
            final(self).events() == old(self).events(),
    {
        self.refund_to(invoice_id, contract_balance, InvoiceStatus::Refunded)
    }

    /// Refunds the escrow of funded invoice `invoice_id` to its investor,
    /// closing the invoice to `invoice_to` and refunding its investment.
    fn refund_to(&mut self, invoice_id: InvoiceId, contract_balance: i128, invoice_to: InvoiceStatus) -> (r:
        Result<Option<Transfer>, QuickLendXError>)
        requires
            old(self).wf(),
            invoice_to == InvoiceStatus::Refunded || invoice_to == InvoiceStatus::Cancelled,
        ensures
            final(self).wf(),
            escrow_refund_outcome(
                old(self).invoice_records(),
                old(self).investment_records(),
                old(self).fundings(),
                old(self).escrow_records(),
                old(self).active_investments(),
                old(self).contract_address(),
                final(self).invoice_records(),
                final(self).investment_records(),
                final(self).escrow_records(),
                final(self).active_investments(),
                invoice_id,
                contract_balance,
                invoice_to,
                r,
            ),
            final(self).invoice_ids() == old(self).invoice_ids(),
            final(self).bid_records() == old(self).bid_records(),
            final(self).fundings() == old(self).fundings(),
            final(self).dispute_records() == old(self).dispute_records(),
            final(self).next_investment_id() == old(self).next_investment_id(),
            final(self).next_escrow_id() == old(self).next_escrow_id(),
            final(self).bid_ttl() == old(self).bid_ttl(),
            final(self).bid_listing() == old(self).bid_listing(),
            final(self).invoice_limits() == old(self).invoice_limits(),
            final(self).fee_state() == old(self).fee_state(),
            final(self).contract_address() == old(self).contract_address(),
            final(self).business_records() == old(self).business_records(),
            final(self).investor_records() == old(self).investor_records(),
            final(self).accepted_currencies() == old(self).accepted_currencies(),
            final(self).admin() == old(self).admin(),
            final(self).protocol_setup() == old(self).protocol_setup(),
            final(self).events() == old(self).events(),
    {
        let (_p, k) = self.locate_funded(invoice_id, false)?;
        let transfer = refund_escrow(&mut self.escrows, self.contract, invoice_id, contract_balance)?;
        self.close_funding(k, invoice_to, InvestmentStatus::Refunded);
        Ok(transfer)
    }

    /// Releases the escrow of funded invoice `invoice_id` to its business
    /// (the protocol holding `contract_balance`); the invoice stays funded.
    /// Returns the transfer to perform. Fails, changing nothing, with
    /// `InvoiceNotFound`, `InvalidStatus` (not funded), or as `payout_error`
    /// says.
    pub fn release_escrow_funds(&mut self, invoice_id: InvoiceId, contract_balance: i128) -> (r: Result<
        Option<Transfer>,
        QuickLendXError,
    >)
        requires
            old(self).wf(),
        ensures
            final(self).wf(),
            final(self).invoice_records() == old(self).invoice_records(),
            final(self).invoice_ids() == old(self).invoice_ids(),
            final(self).investment_records() == old(self).investment_records(),
            final(self).active_investments() == old(self).active_investments(),
            final(self).bid_records() == old(self).bid_records(),
            final(self).fundings() == old(self).fundings(),
            ({
                let s = old(self).invoice_records();
                let es = old(self).escrow_records();
                let p = invoice_index(s, invoice_id);
                let c = old(self).contract_address();
                let x = latest_for_invoice(es, invoice_id)->0;
                let perr = payout_error(es, invoice_id, c, es[x].business, contract_balance);
                &&& p < 0 ==> r == Err::<Option<Transfer>, QuickLendXError>(QuickLendXError::InvoiceNotFound)
                &&& p >= 0 && s[p].status != InvoiceStatus::Funded ==> r == Err::<
                    Option<Transfer>,
                    QuickLendXError,
                >(QuickLendXError::InvalidStatus)
                &&& p >= 0 && s[p].status == InvoiceStatus::Funded ==> (perr matches Some(e) ==> r
                    == Err::<Option<Transfer>, QuickLendXError>(e))
                &&& r is Ok <==> p >= 0 && s[p].status == InvoiceStatus::Funded && perr is None
                &&& r is Err ==> final(self).escrow_records() == es
                &&& r is Ok ==> {
                    &&& r == Ok::<Option<Transfer>, QuickLendXError>(
                        if c == es[x].business {
                            None
                        } else {
                            Some(transfer_of(c, c, es[x].business, es[x].amount))
                        },
                    )
                    &&& final(self).escrow_records() == es.update(
                        x,
                        Escrow { status: EscrowStatus::Released, ..es[x] },
                    )
                }
            }),
            final(self).dispute_records() == old(self).dispute_records(),
            final(self).next_investment_id() == old(self).next_investment_id(),
            final(self).next_escrow_id() == old(self).next_escrow_id(),
            final(self).bid_ttl() == old(self).bid_ttl(),
            final(self).bid_listing() == old(self).bid_listing(),
            final(self).invoice_limits() == old(self).invoice_limits(),
            final(self).fee_state() == old(self).fee_state(),
            final(self).contract_address() == old(self).contract_address(),
            final(self).business_records() == old(self).business_records(),
            final(self).investor_records() == old(self).investor_records(),
            final(self).accepted_currencies() == old(self).accepted_currencies(),
            final(self).admin() == old(self).admin(),
            final(self).protocol_setup() == old(self).protocol_setup(),
            final(self).events() == old(self).events(),
    {
        let (_p, _k) = self.locate_funded(invoice_id, false)?;
        release_escrow(&mut self.escrows, self.contract, invoice_id, contract_balance)
    }

    /// The funding record of invoice `invoice_id`, if it was funded.
    pub fn get_funding(&self, invoice_id: InvoiceId) -> (r: Option<Funding>)
        requires
            self.wf(),
        ensures
            ({
                let k = funding_index(self.fundings(), invoice_id);
                &&& k < 0 ==> r is None
                &&& k >= 0 ==> r == Some(self.fundings()[k])
            }),
    {
        proof {
            lemma_records_distinct(self.invoices.stored(), self.investments.stored(), self.funding@);
            let fr = self.fundings();
            assert forall|a: int, b: int|
                0 <= a < fr.len() && 0 <= b < fr.len() && a != b implies (#[trigger] fr[a]).invoice_id
                != (#[trigger] fr[b]).invoice_id by {
                assert(fr[a] == self.funding@[a].record && fr[b] == self.funding@[b].record);
            }
            lemma_funding_index(fr, invoice_id);
        }
        match self.find_funding(invoice_id) {
            Some(k) => {
                proof {
                    let fr = self.fundings();
                    assert(fr[k as int] == self.funding@[k as int].record);
                    lemma_funding_index_unique(fr, k as int);
                }
                Some(self.funding[k].record)
            },
            None => {
                proof {
                    let fr = self.fundings();
                    if funding_index(fr, invoice_id) >= 0 {
                        let k = funding_index(fr, invoice_id);
                        assert(fr[k] == self.funding@[k].record);
                    }
                }
                None
            },
        }
    }

    /// The investment that funded invoice `invoice_id`, if it was funded.
    pub fn get_invoice_investment(&self, invoice_id: InvoiceId) -> (r: Option<&Investment>)
        requires
            self.wf(),
        ensures
            ({
                let f = self.fundings();
                let k = funding_index(f, invoice_id);
                let m = self.investment_records();
                &&& k < 0 ==> r is None
                &&& k >= 0 ==> r == Some(&m[investment_index(m, f[k].investment_id)])
                &&& k >= 0 ==> 0 <= investment_index(m, f[k].investment_id) < m.len()
            }),
    {
        let found = self.find_funding(invoice_id);
        proof {
            lemma_records_distinct(self.invoices.stored(), self.investments.stored(), self.funding@);
            let fr = self.fundings();
            assert forall|a: int, b: int|
                0 <= a < fr.len() && 0 <= b < fr.len() && a != b implies (#[trigger] fr[a]).invoice_id
                != (#[trigger] fr[b]).invoice_id by {
                assert(fr[a] == self.funding@[a].record && fr[b] == self.funding@[b].record);
            }
            lemma_funding_index(fr, invoice_id);
            if funding_index(fr, invoice_id) >= 0 && found is None {
                let k = funding_index(fr, invoice_id);
                assert(fr[k] == self.funding@[k].record);
            }
        }
        match found {
            Some(k) => {
                let e = self.funding[k];
                proof {
                    let fr = self.fundings();
                    assert(fr[k as int] == e.record);
                    lemma_funding_index_unique(fr, k as int);
                    assert(entry_ok(self.invoices.stored(), self.investments.stored(), e));
                    lemma_investment_index_unique(self.investments.stored(), e.investment_pos as int);
                }
                Some(self.investments.investment_at(e.investment_pos))
            },
            None => None,
        }
    }

    /// Identifiers of the active investments.
    pub fn get_active_investment_ids(&self) -> (r: Vec<u64>)
        ensures
            r@ == self.active_investments(),
    {
        self.investments.get_active_investment_ids()
    }

    /// Checks that every entry of the active index names a stored active
    /// investment; always the case.
    pub fn validate_no_orphan_investments(&self) -> (r: bool)
        requires
            self.wf(),
        ensures
            r,
    {
        self.investments.validate_no_orphan_investments()
    }

    /// Status of the latest escrow of invoice `invoice_id`;
    /// `StorageKeyNotFound` when it has none.
    pub fn get_escrow_status(&self, invoice_id: InvoiceId) -> (r: Result<EscrowStatus, QuickLendXError>)
        ensures
            match latest_for_invoice(self.escrow_records(), invoice_id) {
                Some(x) => r == Ok::<EscrowStatus, QuickLendXError>(self.escrow_records()[x].status),
                None => r == Err::<EscrowStatus, QuickLendXError>(QuickLendXError::StorageKeyNotFound),
            },
    {
        self.escrows.get_escrow_status(invoice_id)
    }

    /// Opens a dispute of `creator` on invoice `invoice_id` at `now`:
    /// `InvoiceNotFound` when no such invoice is stored; otherwise as
    /// `dispute_outcome` says, the invoice's business and, once it was
    /// funded, its investor being the ones allowed. Nothing else changes.
    pub fn create_dispute(
        &mut self,
        invoice_id: InvoiceId,
        creator: Address,
        reason: Vec<u8>,
        evidence: Vec<u8>,
        now: u64,
    ) -> (r: Result<(), QuickLendXError>)
        requires
            old(self).wf(),
        ensures
            final(self).wf(),
            ({
                let s = old(self).invoice_records();
                let p = invoice_index(s, invoice_id);
                let f = old(self).fundings();
                let k = funding_index(f, invoice_id);
                let investor = if k >= 0 {
                    Some(f[k].investor)
                } else {
                    None::<Address>
                };
                &&& p < 0 ==> r == Err::<(), QuickLendXError>(QuickLendXError::InvoiceNotFound)
                    && final(self).dispute_records() == old(self).dispute_records()
                &&& p >= 0 ==> dispute_outcome(
                    old(self).dispute_records(),
                    final(self).dispute_records(),
                    invoice_id,
                    s[p].business,
                    investor,
                    creator,
                    reason@,
                    evidence@,
                    now,
                    r,
                )
            }),
            final(self).invoice_records() == old(self).invoice_records(),
            final(self).invoice_ids() == old(self).invoice_ids(),
            final(self).investment_records() == old(self).investment_records(),
            final(self).active_investments() == old(self).active_investments(),
            final(self).bid_records() == old(self).bid_records(),
            final(self).escrow_records() == old(self).escrow_records(),
            final(self).fundings() == old(self).fundings(),
            final(self).next_investment_id() == old(self).next_investment_id(),
            final(self).next_escrow_id() == old(self).next_escrow_id(),
            final(self).bid_ttl() == old(self).bid_ttl(),
            final(self).bid_listing() == old(self).bid_listing(),
            final(self).invoice_limits() == old(self).invoice_limits(),
            final(self).fee_state() == old(self).fee_state(),
            final(self).contract_address() == old(self).contract_address(),
            final(self).business_records() == old(self).business_records(),
            final(self).investor_records() == old(self).investor_records(),
            final(self).accepted_currencies() == old(self).accepted_currencies(),
            final(self).admin() == old(self).admin(),
            final(self).protocol_setup() == old(self).protocol_setup(),
            final(self).events() == old(self).events(),
    {
        let business = match self.get_invoice(invoice_id) {
            Some(inv) => inv.business,
            None => {
                return Err(QuickLendXError::InvoiceNotFound);
            },
        };
        let investor = match self.get_funding(invoice_id) {
            Some(f) => Some(f.investor),
            None => None,
        };
        self.disputes.create_dispute(invoice_id, business, investor, creator, reason, evidence, now)
    }

    /// The dispute on invoice `invoice_id`, if any.
    pub fn get_dispute(&self, invoice_id: InvoiceId) -> (r: Option<&Dispute>)
        requires
            self.wf(),
        ensures
            r is None <==> !has_dispute(self.dispute_records(), invoice_id),
            r matches Some(d) ==> d.invoice_id == invoice_id && self.dispute_records().contains(*d),
    {
        self.disputes.get_dispute(invoice_id)
    }

    /// The latest escrow of invoice `invoice_id`; `StorageKeyNotFound` when
    /// it has none.
    pub fn get_escrow_details(&self, invoice_id: InvoiceId) -> (r: Result<Escrow, QuickLendXError>)
        ensures
            match latest_for_invoice(self.escrow_records(), invoice_id) {
                Some(x) => r == Ok::<Escrow, QuickLendXError>(self.escrow_records()[x]),
                None => r == Err::<Escrow, QuickLendXError>(QuickLendXError::StorageKeyNotFound),
            },
    {
        match self.escrows.get_escrow_by_invoice(invoice_id) {
            Some(e) => Ok(e),
            None => Err(QuickLendXError::StorageKeyNotFound),
        }
    }
    /// Funded invoices and investments move together: every funded invoice
    /// has a funding record, and the investment of each record belongs to
    /// its invoice and is active exactly while that invoice is funded.
    pub proof fn lemma_investment_active_iff_invoice_funded(&self)
        requires
            self.wf(),
        ensures
            forall|p: int|
                0 <= p < self.invoice_records().len() && (#[trigger] self.invoice_records()[p]).status
                    == InvoiceStatus::Funded ==> funding_index(
                    self.fundings(),
                    self.invoice_records()[p].id,
                ) >= 0,
            forall|k: int|
                #![trigger self.fundings()[k]]
                0 <= k < self.fundings().len() ==> {
                    let fk = self.fundings()[k];
                    let p = invoice_index(self.invoice_records(), fk.invoice_id);
                    let q = investment_index(self.investment_records(), fk.investment_id);
                    &&& 0 <= p < self.invoice_records().len()
                    &&& 0 <= q < self.investment_records().len()
                    &&& self.investment_records()[q].invoice_id == fk.invoice_id
                    &&& (self.investment_records()[q].status == InvestmentStatus::Active
                        <==> self.invoice_records()[p].status == InvoiceStatus::Funded)
                },
    {
        let s = self.invoices.stored();
        let m = self.investments.stored();
        let f = self.funding@;
        let fr = self.fundings();
        assert forall|p: int|
            0 <= p < s.len() && (#[trigger] s[p]).status == InvoiceStatus::Funded implies funding_index(
            fr,
            s[p].id,
        ) >= 0 by {
            assert(funded_once(s[p].status));
            let k = choose|k: int| 0 <= k < f.len() && (#[trigger] f[k]).invoice_pos == p;
            assert(entry_ok(s, m, f[k]));
            assert(fr[k] == f[k].record);
            lemma_funding_index(fr, s[p].id);
        }
        assert forall|k: int| 0 <= k < fr.len() implies {
            let fk = #[trigger] fr[k];
            let p = invoice_index(s, fk.invoice_id);
            let q = investment_index(m, fk.investment_id);
            &&& 0 <= p < s.len()
            &&& 0 <= q < m.len()
            &&& m[q].invoice_id == fk.invoice_id
            &&& (m[q].status == InvestmentStatus::Active <==> s[p].status == InvoiceStatus::Funded)
        } by {
            assert(fr[k] == f[k].record);
            assert(entry_ok(s, m, f[k]));
            lemma_invoice_index_unique(s, f[k].invoice_pos as int);
            lemma_investment_index_unique(m, f[k].investment_pos as int);
        }
    }
}

} // verus!
