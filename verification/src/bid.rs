//! Bids on invoices: placement with a time to live, status changes, and the
//! cleanup that expires stale bids and prunes them from the invoice index.
use vstd::prelude::*;

use crate::errors::QuickLendXError;
use crate::invoice_id::InvoiceId;
use crate::Address;

verus! {

/// Time to live of a new bid before any configuration, in days.
pub const DEFAULT_BID_TTL_DAYS: u64 = 7;

/// Longest time to live a configuration may set, in days.
pub const MAX_BID_TTL_DAYS: u64 = 30;

/// Seconds in a day.
pub const SECONDS_PER_DAY: u64 = 86_400;

/// Lifecycle status of a bid.
#[derive(Clone, Copy, Debug, PartialEq, Eq, Structural)]
pub enum BidStatus {
    Placed,
    Withdrawn,
    Accepted,
    Expired,
    Cancelled,
}

/// A bid of an investor on an invoice.
#[derive(Clone, Copy, Debug, PartialEq, Eq, Structural)]
pub struct Bid {
    pub bid_id: u64,
    pub invoice_id: InvoiceId,
    pub investor: Address,
    pub bid_amount: i128,
    pub expected_return: i128,
    pub timestamp: u64,
    pub status: BidStatus,
    pub expiration_timestamp: u64,
}

/// Expiration time of a bid placed at `now` with a time to live of
/// `ttl_days` days, saturated at `u64::MAX`.
pub open spec fn expiration_of(now: u64, ttl_days: u64) -> u64 {
    if now + ttl_days * SECONDS_PER_DAY > u64::MAX {
        u64::MAX
    } else {
        (now + ttl_days * SECONDS_PER_DAY) as u64
    }
}

/// What placing a bid does to the bids `old_b` (index flags `old_l`, time
/// to live `ttl`), leaving `new_b` and `new_l` and answering `r`:
/// `InvalidAmount`, changing nothing, for an amount that is not positive;
/// otherwise a placed, indexed bid is added under the next identifier.
pub open spec fn placement_outcome(
    old_b: Seq<Bid>,
    old_l: Seq<bool>,
    ttl: u64,
    new_b: Seq<Bid>,
    new_l: Seq<bool>,
    investor: Address,
    invoice_id: InvoiceId,
    bid_amount: i128,
    expected_return: i128,
    now: u64,
    r: Result<u64, QuickLendXError>,
) -> bool {
    &&& bid_amount <= 0 ==> r == Err::<u64, QuickLendXError>(QuickLendXError::InvalidAmount)
        && new_b == old_b && new_l == old_l
    &&& bid_amount > 0 ==> r == Ok::<u64, QuickLendXError>(old_b.len() as u64) && new_b
        == old_b.push(
        Bid {
            bid_id: old_b.len() as u64,
            invoice_id,
            investor,
            bid_amount,
            expected_return,
            timestamp: now,
            status: BidStatus::Placed,
            expiration_timestamp: expiration_of(now, ttl),
        },
    ) && new_l == old_l.push(true)
}

/// A bid placed at `now` under a time to live of `ttl` days expires
/// `ttl * 86_400` seconds later (at `u64::MAX` when that overflows): the
/// placed bid is the last one, placed at `now`, and the index gains it.
pub proof fn lemma_bid_expires_after_ttl(
    old_b: Seq<Bid>,
    old_l: Seq<bool>,
    ttl: u64,
    new_b: Seq<Bid>,
    new_l: Seq<bool>,
    investor: Address,
    invoice_id: InvoiceId,
    bid_amount: i128,
    expected_return: i128,
    now: u64,
    r: Result<u64, QuickLendXError>,
)
    requires
        placement_outcome(
            old_b,
            old_l,
            ttl,
            new_b,
            new_l,
            investor,
            invoice_id,
            bid_amount,
            expected_return,
            now,
            r,
        ),
        r is Ok,
    ensures
        new_b.len() == old_b.len() + 1,
        new_b.last().timestamp == now,
        now as int + ttl * 86_400 <= u64::MAX ==> new_b.last().expiration_timestamp == now
            + ttl * 86_400,
        now as int + ttl * 86_400 > u64::MAX ==> new_b.last().expiration_timestamp == u64::MAX,
        new_b.last().expiration_timestamp >= now,
{
}

/// Whether the cleanup at time `now` removes bid `b` from the index: it has
/// expired already, or it is still placed and its expiration has passed
/// (strictly).
pub open spec fn prunable(b: Bid, now: u64) -> bool {
    b.status == BidStatus::Expired || (b.status == BidStatus::Placed && now
        > b.expiration_timestamp)
}

/// Bid `b` after the cleanup of `invoice` at time `now`: a placed bid of
/// that invoice whose expiration has passed becomes expired.
pub open spec fn after_cleanup(b: Bid, invoice: InvoiceId, now: u64) -> Bid {
    if b.invoice_id == invoice && b.status == BidStatus::Placed && now > b.expiration_timestamp {
        Bid { status: BidStatus::Expired, ..b }
    } else {
        b
    }
}

/// Number of indexed bids of `invoice` among `bids` that the cleanup at
/// time `now` removes.
pub open spec fn pruned_count(bids: Seq<Bid>, listed: Seq<bool>, invoice: InvoiceId, now: u64) -> nat
    decreases bids.len(),
{
    if bids.len() == 0 || listed.len() != bids.len() {
        0
    } else {
        pruned_count(bids.drop_last(), listed.drop_last(), invoice, now) + if listed.last()
            && bids.last().invoice_id == invoice && prunable(bids.last(), now) {
            1nat
        } else {
            0nat
        }
    }
}

/// Identifiers of the indexed bids of `invoice`, in placement order.
pub open spec fn listed_for_invoice(bids: Seq<Bid>, listed: Seq<bool>, invoice: InvoiceId) -> Seq<u64>
    decreases bids.len(),
{
    if bids.len() == 0 || listed.len() != bids.len() {
        Seq::empty()
    } else if listed.last() && bids.last().invoice_id == invoice {
        listed_for_invoice(bids.drop_last(), listed.drop_last(), invoice).push(bids.last().bid_id)
    } else {
        listed_for_invoice(bids.drop_last(), listed.drop_last(), invoice)
    }
}

/// Identifiers of every bid of `investor`, in placement order.
pub open spec fn bids_of_investor(bids: Seq<Bid>, investor: Address) -> Seq<u64>
    decreases bids.len(),
{
    if bids.len() == 0 {
        Seq::empty()
    } else if bids.last().investor == investor {
        bids_of_investor(bids.drop_last(), investor).push(bids.last().bid_id)
    } else {
        bids_of_investor(bids.drop_last(), investor)
    }
}

/// Cleanup leaves settled bids alone: an accepted, withdrawn or cancelled
/// bid is never changed nor pruned, and no bid is pruned while its
/// expiration time has not passed (unless it was marked expired before).
pub proof fn lemma_cleanup_spares_settled_and_live_bids(b: Bid, invoice: InvoiceId, now: u64)
    ensures
        (b.status == BidStatus::Accepted || b.status == BidStatus::Withdrawn || b.status
            == BidStatus::Cancelled) ==> after_cleanup(b, invoice, now) == b && !prunable(b, now),
        b.status != BidStatus::Expired && now <= b.expiration_timestamp ==> after_cleanup(
            b,
            invoice,
            now,
        ) == b && !prunable(b, now),
{
}

/// With nothing to prune, the count of pruned bids is zero.
proof fn lemma_nothing_to_prune(bids: Seq<Bid>, listed: Seq<bool>, invoice: InvoiceId, now: u64)
    requires
        listed.len() == bids.len(),
        forall|i: int|
            0 <= i < bids.len() ==> !(#[trigger] listed[i] && bids[i].invoice_id == invoice
                && prunable(bids[i], now)),
    ensures
        pruned_count(bids, listed, invoice, now) == 0,
    decreases bids.len(),
{
    if bids.len() > 0 {
        assert forall|i: int| 0 <= i < bids.drop_last().len() implies !(
        #[trigger] listed.drop_last()[i] && bids.drop_last()[i].invoice_id == invoice && prunable(
            bids.drop_last()[i],
            now,
        )) by {
            assert(listed.drop_last()[i] == listed[i]);
            assert(bids.drop_last()[i] == bids[i]);
        }
        lemma_nothing_to_prune(bids.drop_last(), listed.drop_last(), invoice, now);
        assert(listed.last() == listed[bids.len() - 1]);
    }
}

/// Every bid, indexed or not, with the invoice index as a flag per bid.
pub struct BidStorage {
    bids: Vec<Bid>,
    indexed: Vec<bool>,
    ttl_days: u64,
}

impl BidStorage {
    /// Every bid placed, in placement order.
    pub closed spec fn records(&self) -> Seq<Bid> {
        self.bids@
    }

    /// Whether each bid is still in its invoice's index.
    pub closed spec fn listed(&self) -> Seq<bool> {
        self.indexed@
    }

    /// Time to live of new bids, in days.
    pub closed spec fn ttl(&self) -> u64 {
        self.ttl_days
    }

    /// Well-formedness: bid `i` has identifier `i`, the index has a flag per
    /// bid, every placed bid is indexed, and the time to live is between 1
    /// and `MAX_BID_TTL_DAYS` days.
    pub open spec fn wf(&self) -> bool {
        &&& self.listed().len() == self.records().len()
        &&& forall|i: int|
            0 <= i < self.records().len() ==> (#[trigger] self.records()[i]).bid_id == i
        &&& forall|i: int|
            0 <= i < self.records().len() && (#[trigger] self.records()[i]).status
                == BidStatus::Placed ==> self.listed()[i]
        &&& 1 <= self.ttl() <= MAX_BID_TTL_DAYS
    }

    /// No bids, the default time to live.
    pub fn new() -> (r: Self)
        ensures
            r.wf(),
            r.records() == Seq::<Bid>::empty(),
            r.listed() == Seq::<bool>::empty(),
            r.ttl() == DEFAULT_BID_TTL_DAYS,
    {
        BidStorage { bids: Vec::new(), indexed: Vec::new(), ttl_days: DEFAULT_BID_TTL_DAYS }
    }

    /// Time to live of new bids, in days.
    pub fn get_bid_ttl_days(&self) -> (r: u64)
        ensures
            r == self.ttl(),
    {
        self.ttl_days
    }

    /// Sets the time to live of new bids; `InvalidTimestamp`, changing
    /// nothing, outside `1..=MAX_BID_TTL_DAYS`.
    pub fn set_bid_ttl_days(&mut self, days: u64) -> (r: Result<(), QuickLendXError>)
        requires
            old(self).wf(),
        ensures
            final(self).wf(),
            r is Ok <==> 1 <= days <= MAX_BID_TTL_DAYS,
            r is Err ==> r == Err::<(), QuickLendXError>(QuickLendXError::InvalidTimestamp)
                && final(self).ttl() == old(self).ttl(),
            r is Ok ==> final(self).ttl() == days,
            final(self).records() == old(self).records(),
            final(self).listed() == old(self).listed(),
    {
        if days < 1 || days > MAX_BID_TTL_DAYS {
            return Err(QuickLendXError::InvalidTimestamp);
        }
        self.ttl_days = days;
        Ok(())
    }

    /// Places a bid of `bid_amount` by `investor` on `invoice_id` at `now`,
    /// expiring after the time to live, and returns its identifier.
    /// `InvalidAmount` for an amount that is not positive; nothing changes
    /// then.
    pub fn place_bid(
        &mut self,
        investor: Address,
        invoice_id: InvoiceId,
        bid_amount: i128,
        expected_return: i128,
        now: u64,
    ) -> (r: Result<u64, QuickLendXError>)
        requires
            old(self).wf(),
        ensures
            final(self).wf(),
            final(self).ttl() == old(self).ttl(),
            r is Ok ==> final(self).records().last().timestamp == now,
            r is Ok && now as int + old(self).ttl() * 86_400 <= u64::MAX ==> final(self).records().last().expiration_timestamp == now + old(self).ttl() * 86_400,
            r is Ok && now as int + old(self).ttl() * 86_400 > u64::MAX ==> final(self).records().last().expiration_timestamp == u64::MAX,
            placement_outcome(
                old(self).records(),
                old(self).listed(),
                old(self).ttl(),
                final(self).records(),
                final(self).listed(),
                investor,
                invoice_id,
                bid_amount,
                expected_return,
                now,
                r,
            ),
    {
        if bid_amount <= 0 {
            return Err(QuickLendXError::InvalidAmount);
        }
        let id = self.bids.len() as u64;
        let expiration = now.saturating_add(self.ttl_days * SECONDS_PER_DAY);
        let ghost old_bids = self.bids@;
        self.bids.push(
            Bid {
                bid_id: id,
                invoice_id,
                investor,
                bid_amount,
                expected_return,
                timestamp: now,
                status: BidStatus::Placed,
                expiration_timestamp: expiration,
            },
        );
        self.indexed.push(true);
        proof {
            assert forall|i: int| 0 <= i < self.bids@.len() implies (
            #[trigger] self.bids@[i]).bid_id == i by {
                if i < old_bids.len() {
                    assert(self.bids@[i] == old_bids[i]);
                }
            }
        }
        Ok(id)
    }

    /// The bid with identifier `bid_id`, if any.
    pub fn get_bid(&self, bid_id: u64) -> (r: Option<Bid>)
        ensures
            bid_id < self.records().len() ==> r == Some(self.records()[bid_id as int]),
            bid_id >= self.records().len() ==> r is None,
    {
        if bid_id < self.bids.len() as u64 {
            Some(self.bids[bid_id as usize])
        } else {
            None
        }
    }

    /// Identifiers of the indexed bids of `invoice_id`, in placement order.
    pub fn get_bids_for_invoice(&self, invoice_id: InvoiceId) -> (r: Vec<u64>)
        requires
            self.wf(),
        ensures
            r@ == listed_for_invoice(self.records(), self.listed(), invoice_id),
    {
        let mut out: Vec<u64> = Vec::new();
        let mut i: usize = 0;
        while i < self.bids.len()
            invariant
                0 <= i <= self.bids@.len(),
                self.indexed@.len() == self.bids@.len(),
                out@ == listed_for_invoice(
                    self.bids@.take(i as int),
                    self.indexed@.take(i as int),
                    invoice_id,
                ),
            decreases self.bids@.len() - i,
        {
            proof {
                assert(self.bids@.take(i + 1).drop_last() =~= self.bids@.take(i as int));
                assert(self.indexed@.take(i + 1).drop_last() =~= self.indexed@.take(i as int));
            }
            if self.indexed[i] && self.bids[i].invoice_id == invoice_id {
                out.push(self.bids[i].bid_id);
            }
            i = i + 1;
        }
        proof {
            assert(self.bids@.take(i as int) =~= self.bids@);
            assert(self.indexed@.take(i as int) =~= self.indexed@);
        }
        out
    }

    /// Identifiers of every bid placed by `investor`, whatever its status,
    /// in placement order.
    pub fn get_bids_by_investor_all(&self, investor: Address) -> (r: Vec<u64>)
        ensures
            r@ == bids_of_investor(self.records(), investor),
    {
        let mut out: Vec<u64> = Vec::new();
        let mut i: usize = 0;
        while i < self.bids.len()
            invariant
                0 <= i <= self.bids@.len(),
                out@ == bids_of_investor(self.bids@.take(i as int), investor),
            decreases self.bids@.len() - i,
        {
            proof {
                assert(self.bids@.take(i + 1).drop_last() =~= self.bids@.take(i as int));
            }
            if self.bids[i].investor == investor {
                out.push(self.bids[i].bid_id);
            }
            i = i + 1;
        }
        proof {
            assert(self.bids@.take(i as int) =~= self.bids@);
        }
        out
    }

    /// Moves a placed bid to `to`; the bid stays indexed.
    fn transition(&mut self, bid_id: u64, to: BidStatus) -> (r: Result<(), QuickLendXError>)
        requires
            old(self).wf(),
            to != BidStatus::Placed,
        ensures
            final(self).wf(),
            final(self).ttl() == old(self).ttl(),
            final(self).listed() == old(self).listed(),
            bid_id >= old(self).records().len() ==> r == Err::<(), QuickLendXError>(
                QuickLendXError::StorageKeyNotFound,
            ),
            bid_id < old(self).records().len() && old(self).records()[bid_id as int].status
                != BidStatus::Placed ==> r == Err::<(), QuickLendXError>(
                QuickLendXError::InvalidStatus,
            ),
            r is Ok <==> bid_id < old(self).records().len() && old(
                self,
            ).records()[bid_id as int].status == BidStatus::Placed,
            r is Err ==> final(self).records() == old(self).records(),
            r is Ok ==> final(self).records() == old(self).records().update(
                bid_id as int,
                Bid { status: to, ..old(self).records()[bid_id as int] },
            ),
    {
        if bid_id >= self.bids.len() as u64 {
            return Err(QuickLendXError::StorageKeyNotFound);
        }
        let i = bid_id as usize;
        if self.bids[i].status != BidStatus::Placed {
            return Err(QuickLendXError::InvalidStatus);
        }
        let ghost old_bids = self.bids@;
        self.bids[i].status = to;
        proof {
            assert(self.bids@ =~= old_bids.update(i as int, Bid { status: to, ..old_bids[i as int] }));
            assert forall|k: int| 0 <= k < self.bids@.len() implies (
            #[trigger] self.bids@[k]).bid_id == k by {
                assert(self.bids@[k].bid_id == old_bids[k].bid_id);
            }
            assert forall|k: int|
                0 <= k < self.bids@.len() && (#[trigger] self.bids@[k]).status
                    == BidStatus::Placed implies self.indexed@[k] by {
                assert(k != i);
                assert(self.bids@[k] == old_bids[k]);
            }
        }
        Ok(())
    }

    /// Accepts a placed bid whose expiration has not passed at `now`.
    /// `StorageKeyNotFound` for an unknown bid; `InvalidStatus` for a bid
    /// that is not placed or has expired. Nothing changes on failure.
    pub fn accept_bid(&mut self, bid_id: u64, now: u64) -> (r: Result<(), QuickLendXError>)
        requires
            old(self).wf(),
        ensures
            final(self).wf(),
            final(self).ttl() == old(self).ttl(),
            final(self).listed() == old(self).listed(),
            bid_id >= old(self).records().len() ==> r == Err::<(), QuickLendXError>(
                QuickLendXError::StorageKeyNotFound,
            ),
            bid_id < old(self).records().len() && (old(self).records()[bid_id as int].status
                != BidStatus::Placed || now > old(self).records()[bid_id as int].expiration_timestamp)
                ==> r == Err::<(), QuickLendXError>(QuickLendXError::InvalidStatus),
            r is Ok <==> bid_id < old(self).records().len() && old(
                self,
            ).records()[bid_id as int].status == BidStatus::Placed && now <= old(
                self,
            ).records()[bid_id as int].expiration_timestamp,
            r is Err ==> final(self).records() == old(self).records(),
            r is Ok ==> final(self).records() == old(self).records().update(
                bid_id as int,
                Bid { status: BidStatus::Accepted, ..old(self).records()[bid_id as int] },
            ),
    {
        if bid_id < self.bids.len() as u64 && now > self.bids[bid_id as usize].expiration_timestamp {
            return Err(QuickLendXError::InvalidStatus);
        }
        self.transition(bid_id, BidStatus::Accepted)
    }

    /// Withdraws a placed bid; fails as `accept_bid` does, expiry aside.
    pub fn withdraw_bid(&mut self, bid_id: u64) -> (r: Result<(), QuickLendXError>)
        requires
            old(self).wf(),
        ensures
            final(self).wf(),
            final(self).ttl() == old(self).ttl(),
            final(self).listed() == old(self).listed(),
            bid_id >= old(self).records().len() ==> r == Err::<(), QuickLendXError>(
                QuickLendXError::StorageKeyNotFound,
            ),
            bid_id < old(self).records().len() && old(self).records()[bid_id as int].status
                != BidStatus::Placed ==> r == Err::<(), QuickLendXError>(
                QuickLendXError::InvalidStatus,
            ),
            r is Ok <==> bid_id < old(self).records().len() && old(
                self,
            ).records()[bid_id as int].status == BidStatus::Placed,
            r is Err ==> final(self).records() == old(self).records(),
            r is Ok ==> final(self).records() == old(self).records().update(
                bid_id as int,
                Bid { status: BidStatus::Withdrawn, ..old(self).records()[bid_id as int] },
            ),
    {
        self.transition(bid_id, BidStatus::Withdrawn)
    }

    /// Cancels a placed bid; fails as `withdraw_bid` does.
    pub fn cancel_bid(&mut self, bid_id: u64) -> (r: Result<(), QuickLendXError>)
        requires
            old(self).wf(),
        ensures
            final(self).wf(),
            final(self).ttl() == old(self).ttl(),
            final(self).listed() == old(self).listed(),
            bid_id >= old(self).records().len() ==> r == Err::<(), QuickLendXError>(
                QuickLendXError::StorageKeyNotFound,
            ),
            bid_id < old(self).records().len() && old(self).records()[bid_id as int].status
                != BidStatus::Placed ==> r == Err::<(), QuickLendXError>(
                QuickLendXError::InvalidStatus,
            ),
            r is Ok <==> bid_id < old(self).records().len() && old(
                self,
            ).records()[bid_id as int].status == BidStatus::Placed,
            r is Err ==> final(self).records() == old(self).records(),
            r is Ok ==> final(self).records() == old(self).records().update(
                bid_id as int,
                Bid { status: BidStatus::Cancelled, ..old(self).records()[bid_id as int] },
            ),
    {
        self.transition(bid_id, BidStatus::Cancelled)
    }

    /// Expires the placed bids of `invoice_id` whose expiration has passed
    /// at `now` and removes them, and any bid expired before, from the
    /// invoice index; returns how many entries left the index (saturated at
    /// `u32::MAX`). Accepted, withdrawn and cancelled bids stay; afterwards
    /// nothing of the invoice is left to prune at `now`, so a second cleanup
    /// removes nothing.
    pub fn cleanup_expired_bids(&mut self, invoice_id: InvoiceId, now: u64) -> (r: u32)
        requires
            old(self).wf(),
        ensures
            final(self).wf(),
            final(self).ttl() == old(self).ttl(),
            final(self).records().len() == old(self).records().len(),
            forall|i: int|
                0 <= i < old(self).records().len() ==> #[trigger] final(self).records()[i]
                    == after_cleanup(old(self).records()[i], invoice_id, now),
            forall|i: int|
                0 <= i < old(self).records().len() ==> #[trigger] final(self).listed()[i] == (old(
                    self,
                ).listed()[i] && !(old(self).records()[i].invoice_id == invoice_id && prunable(
                    old(self).records()[i],
                    now,
                ))),
            r == if pruned_count(old(self).records(), old(self).listed(), invoice_id, now)
                > u32::MAX {
                u32::MAX as int
            } else {
                pruned_count(old(self).records(), old(self).listed(), invoice_id, now) as int
            },
            pruned_count(final(self).records(), final(self).listed(), invoice_id, now) == 0,
    {
        let ghost old_bids = self.bids@;
        let ghost old_listed = self.indexed@;
        let mut removed: u32 = 0;
        let mut i: usize = 0;
        while i < self.bids.len()
            invariant
                0 <= i <= self.bids@.len(),
                self.bids@.len() == old_bids.len(),
                self.indexed@.len() == old_listed.len(),
                old_listed.len() == old_bids.len(),
                self.ttl_days == old(self).ttl_days,
                old_bids == old(self).bids@,
                old_listed == old(self).indexed@,
                forall|k: int| 0 <= k < old_bids.len() ==> (#[trigger] old_bids[k]).bid_id == k,
                forall|k: int|
                    0 <= k < old_bids.len() && (#[trigger] old_bids[k]).status
                        == BidStatus::Placed ==> old_listed[k],
                forall|k: int|
                    0 <= k < i ==> #[trigger] self.bids@[k] == after_cleanup(
                        old_bids[k],
                        invoice_id,
                        now,
                    ),
                forall|k: int| i <= k < old_bids.len() ==> #[trigger] self.bids@[k] == old_bids[k],
                forall|k: int|
                    0 <= k < i ==> #[trigger] self.indexed@[k] == (old_listed[k] && !(
                    old_bids[k].invoice_id == invoice_id && prunable(old_bids[k], now))),
                forall|k: int| i <= k < old_bids.len() ==> #[trigger] self.indexed@[k] == old_listed[k],
                removed == if pruned_count(
                    old_bids.take(i as int),
                    old_listed.take(i as int),
                    invoice_id,
                    now,
                ) > u32::MAX {
                    u32::MAX as int
                } else {
                    pruned_count(old_bids.take(i as int), old_listed.take(i as int), invoice_id, now)
                        as int
                },
            decreases old_bids.len() - i,
        {
            proof {
                assert(old_bids.take(i + 1).drop_last() =~= old_bids.take(i as int));
                assert(old_listed.take(i + 1).drop_last() =~= old_listed.take(i as int));
            }
            let b = self.bids[i];
            let expired_now = b.status == BidStatus::Placed && now > b.expiration_timestamp;
            if self.indexed[i] && b.invoice_id == invoice_id && (b.status == BidStatus::Expired
                || expired_now) {
                if expired_now {
                    self.bids.set(i, Bid { status: BidStatus::Expired, ..b });
                }
                self.indexed.set(i, false);
                removed = removed.saturating_add(1);
            }
            i = i + 1;
        }
        proof {
            assert(old_bids.take(i as int) =~= old_bids);
            assert(old_listed.take(i as int) =~= old_listed);
            let s = self.bids@;
            let l = self.indexed@;
            assert forall|k: int| 0 <= k < s.len() implies (#[trigger] s[k]).bid_id == k by {
                assert(s[k] == after_cleanup(old_bids[k], invoice_id, now));
            }
            assert forall|k: int|
                0 <= k < s.len() && (#[trigger] s[k]).status == BidStatus::Placed implies l[k] by {
                assert(s[k] == after_cleanup(old_bids[k], invoice_id, now));
            }
            assert forall|k: int|
                0 <= k < s.len() implies !(#[trigger] l[k] && s[k].invoice_id == invoice_id
                && prunable(s[k], now)) by {
                assert(s[k] == after_cleanup(old_bids[k], invoice_id, now));
            }
            lemma_nothing_to_prune(s, l, invoice_id, now);
        }
        removed
    }
}

} // verus!
