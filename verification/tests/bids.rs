use quicklendx::bid::{BidStatus, BidStorage, DEFAULT_BID_TTL_DAYS, MAX_BID_TTL_DAYS};
use quicklendx::errors::QuickLendXError;
use quicklendx::invoice_id::InvoiceId;

const INVESTOR: u64 = 100;
const INVESTOR_2: u64 = 101;
const INVOICE: InvoiceId = InvoiceId { timestamp: 0, sequence: 0, counter: 1 };
const INVOICE_2: InvoiceId = InvoiceId { timestamp: 0, sequence: 0, counter: 2 };
const START: u64 = 0;

fn create_and_place_bid(
    storage: &mut BidStorage,
    investor: u64,
    invoice_id: InvoiceId,
    bid_amount: i128,
    expected_return: i128,
    now: u64,
) -> u64 {
    storage.place_bid(investor, invoice_id, bid_amount, expected_return, now).unwrap()
}

fn get_bid_count_for_invoice(storage: &BidStorage, invoice_id: InvoiceId) -> u32 {
    storage.get_bids_for_invoice(invoice_id).len() as u32
}

fn count_bids_by_status(storage: &BidStorage, invoice_id: InvoiceId, status: BidStatus) -> u32 {
    let mut count = 0u32;
    for bid_id in storage.get_bids_for_invoice(invoice_id) {
        if let Some(bid) = storage.get_bid(bid_id) {
            if bid.status == status {
                count = count.saturating_add(1);
            }
        }
    }
    count
}

fn get_placed_bid_count(storage: &BidStorage, invoice_id: InvoiceId) -> u32 {
    count_bids_by_status(storage, invoice_id, BidStatus::Placed)
}

fn past_expiry(storage: &BidStorage) -> u64 {
    START + storage.get_bid_ttl_days() * 86400 + 1
}

// Only expired bids are pruned

#[test]
fn test_cleanup_preserves_active_placed_bids() {
    let mut storage = BidStorage::new();
    let bid_id = create_and_place_bid(&mut storage, INVESTOR, INVOICE, 50_000, 50_500, START);
    assert_eq!(get_bid_count_for_invoice(&storage, INVOICE), 1, "Expected 1 bid before cleanup");

    let cleaned = storage.cleanup_expired_bids(INVOICE, START);
    assert_eq!(cleaned, 0, "Cleanup should remove 0 active bids");
    assert_eq!(
        get_bid_count_for_invoice(&storage, INVOICE),
        1,
        "Expected 1 bid still present after cleanup"
    );
    let bid = storage.get_bid(bid_id).unwrap();
    assert_eq!(bid.status, BidStatus::Placed, "Active bid should remain in Placed status");
}

#[test]
fn test_cleanup_prunes_expired_placed_bids() {
    let mut storage = BidStorage::new();
    let bid_id = create_and_place_bid(&mut storage, INVESTOR, INVOICE, 50_000, 50_500, START);
    let ttl_days = storage.get_bid_ttl_days();
    let expiration = START + ttl_days * 86400;

    let cleaned = storage.cleanup_expired_bids(INVOICE, expiration + 1);
    assert!(cleaned > 0, "Cleanup should remove expired bids");
    let bid = storage.get_bid(bid_id).unwrap();
    assert_eq!(bid.status, BidStatus::Expired, "Expired bid should be marked as Expired");
    assert_eq!(
        get_bid_count_for_invoice(&storage, INVOICE),
        0,
        "Expired bid should be removed from invoice index"
    );
}

#[test]
fn test_cleanup_prunes_already_expired_bids() {
    let mut storage = BidStorage::new();
    let bid_id = create_and_place_bid(&mut storage, INVESTOR, INVOICE, 50_000, 50_500, START);
    let now = past_expiry(&storage);
    storage.cleanup_expired_bids(INVOICE, now);
    assert_eq!(storage.get_bid(bid_id).unwrap().status, BidStatus::Expired);

    let cleaned_again = storage.cleanup_expired_bids(INVOICE, now);
    assert_eq!(cleaned_again, 0, "Second cleanup should find 0 expired bids (already pruned)");
}

// Terminal statuses stay in the index

#[test]
fn test_cleanup_preserves_accepted_bids() {
    let mut storage = BidStorage::new();
    let bid_id = create_and_place_bid(&mut storage, INVESTOR, INVOICE, 50_000, 50_500, START);
    storage.accept_bid(bid_id, START).unwrap();

    let now = past_expiry(&storage);
    let _cleaned = storage.cleanup_expired_bids(INVOICE, now);
    assert_eq!(
        count_bids_by_status(&storage, INVOICE, BidStatus::Accepted),
        1,
        "Accepted bid should remain in index after cleanup"
    );
    let bid = storage.get_bid(bid_id).unwrap();
    assert_eq!(bid.status, BidStatus::Accepted, "Accepted bid should preserve its status");
}

#[test]
fn test_cleanup_preserves_withdrawn_bids() {
    let mut storage = BidStorage::new();
    let bid_id = create_and_place_bid(&mut storage, INVESTOR, INVOICE, 50_000, 50_500, START);
    storage.withdraw_bid(bid_id).unwrap();

    let now = past_expiry(&storage);
    let _cleaned = storage.cleanup_expired_bids(INVOICE, now);
    assert_eq!(
        count_bids_by_status(&storage, INVOICE, BidStatus::Withdrawn),
        1,
        "Withdrawn bid should remain in index after cleanup"
    );
    let bid = storage.get_bid(bid_id).unwrap();
    assert_eq!(bid.status, BidStatus::Withdrawn, "Withdrawn bid should preserve its status");
}

#[test]
fn test_cleanup_preserves_cancelled_bids() {
    let mut storage = BidStorage::new();
    let bid_id = create_and_place_bid(&mut storage, INVESTOR, INVOICE, 50_000, 50_500, START);
    storage.cancel_bid(bid_id).unwrap();

    let now = past_expiry(&storage);
    let _cleaned = storage.cleanup_expired_bids(INVOICE, now);
    assert_eq!(
        count_bids_by_status(&storage, INVOICE, BidStatus::Cancelled),
        1,
        "Cancelled bid should remain in index after cleanup"
    );
    let bid = storage.get_bid(bid_id).unwrap();
    assert_eq!(bid.status, BidStatus::Cancelled, "Cancelled bid should preserve its status");
}

#[test]
fn test_cleanup_with_mixed_bid_statuses() {
    let mut storage = BidStorage::new();
    let _bid_placed = create_and_place_bid(&mut storage, INVESTOR, INVOICE, 50_000, 50_500, START);
    let bid_accepted = create_and_place_bid(&mut storage, INVESTOR, INVOICE, 60_000, 60_600, START);
    let bid_withdrawn = create_and_place_bid(&mut storage, INVESTOR, INVOICE, 70_000, 70_700, START);
    storage.accept_bid(bid_accepted, START).unwrap();
    storage.withdraw_bid(bid_withdrawn).unwrap();

    let now = past_expiry(&storage);
    assert_eq!(get_bid_count_for_invoice(&storage, INVOICE), 3, "Expected 3 bids before cleanup");
    let cleaned = storage.cleanup_expired_bids(INVOICE, now);
    assert_eq!(cleaned, 1, "Cleanup should remove only 1 expired Placed bid");
    assert_eq!(
        get_bid_count_for_invoice(&storage, INVOICE),
        2,
        "Expected 2 bids remaining (Accepted + Withdrawn)"
    );
    assert_eq!(
        count_bids_by_status(&storage, INVOICE, BidStatus::Accepted),
        1,
        "Accepted bid should be preserved"
    );
    assert_eq!(
        count_bids_by_status(&storage, INVOICE, BidStatus::Withdrawn),
        1,
        "Withdrawn bid should be preserved"
    );
}

// Repeated cleanups

#[test]
fn test_cleanup_idempotent_on_expired_bids() {
    let mut storage = BidStorage::new();
    create_and_place_bid(&mut storage, INVESTOR, INVOICE, 30_000, 30_300, START);
    create_and_place_bid(&mut storage, INVESTOR, INVOICE, 40_000, 40_400, START);
    create_and_place_bid(&mut storage, INVESTOR, INVOICE, 50_000, 50_500, START);
    let now = past_expiry(&storage);

    assert_eq!(
        storage.cleanup_expired_bids(INVOICE, now),
        3,
        "First cleanup should remove 3 expired bids"
    );
    assert_eq!(
        storage.cleanup_expired_bids(INVOICE, now),
        0,
        "Second cleanup should find nothing to remove"
    );
    assert_eq!(storage.cleanup_expired_bids(INVOICE, now), 0, "Third cleanup should also find nothing");
    assert_eq!(get_bid_count_for_invoice(&storage, INVOICE), 0, "Index should be empty");
}

#[test]
fn test_cleanup_idempotent_with_mixed_ages() {
    let mut storage = BidStorage::new();
    create_and_place_bid(&mut storage, INVESTOR, INVOICE, 30_000, 30_300, START);
    create_and_place_bid(&mut storage, INVESTOR, INVOICE, 40_000, 40_400, START);
    let now = past_expiry(&storage);

    let cleaned_1 = storage.cleanup_expired_bids(INVOICE, now);
    assert_eq!(cleaned_1, 2, "First cleanup removes 2 expired");

    let later = now + 1;
    let bid_active = create_and_place_bid(&mut storage, INVESTOR_2, INVOICE, 50_000, 50_500, later);
    let cleaned_2 = storage.cleanup_expired_bids(INVOICE, later);
    assert_eq!(cleaned_2, 0, "Second cleanup finds no new expired (new bid is active)");
    assert_eq!(get_placed_bid_count(&storage, INVOICE), 1, "One active Placed bid should remain");
    let bid = storage.get_bid(bid_active).unwrap();
    assert_eq!(bid.status, BidStatus::Placed, "New bid should be Placed");
}

#[test]
fn test_cleanup_idempotent_terminal_bids_always_remain() {
    let mut storage = BidStorage::new();
    let bid_accepted = create_and_place_bid(&mut storage, INVESTOR, INVOICE, 50_000, 50_500, START);
    storage.accept_bid(bid_accepted, START).unwrap();
    let now = past_expiry(&storage);

    let cleaned_1 = storage.cleanup_expired_bids(INVOICE, now);
    let cleaned_2 = storage.cleanup_expired_bids(INVOICE, now);
    let cleaned_3 = storage.cleanup_expired_bids(INVOICE, now);
    assert_eq!(cleaned_1, 0);
    assert_eq!(cleaned_2, 0);
    assert_eq!(cleaned_3, 0);
    let bid = storage.get_bid(bid_accepted).unwrap();
    assert_eq!(bid.status, BidStatus::Accepted, "Accepted bid always remains");
    assert_eq!(count_bids_by_status(&storage, INVOICE, BidStatus::Accepted), 1);
}

// Edge cases

#[test]
fn test_cleanup_on_empty_invoice() {
    let mut storage = BidStorage::new();
    assert_eq!(get_bid_count_for_invoice(&storage, INVOICE), 0);
    let cleaned = storage.cleanup_expired_bids(INVOICE, START);
    assert_eq!(cleaned, 0, "Cleanup on empty invoice returns 0");
    let cleaned_again = storage.cleanup_expired_bids(INVOICE, START);
    assert_eq!(cleaned_again, 0);
}

#[test]
fn test_cleanup_all_bids_expired() {
    let mut storage = BidStorage::new();
    let bid1 = create_and_place_bid(&mut storage, INVESTOR, INVOICE, 30_000, 30_300, START);
    let bid2 = create_and_place_bid(&mut storage, INVESTOR, INVOICE, 40_000, 40_400, START);
    let bid3 = create_and_place_bid(&mut storage, INVESTOR, INVOICE, 50_000, 50_500, START);
    assert_eq!(get_bid_count_for_invoice(&storage, INVOICE), 3);

    let now = past_expiry(&storage);
    let cleaned = storage.cleanup_expired_bids(INVOICE, now);
    assert_eq!(cleaned, 3, "All 3 bids should be cleaned");
    assert_eq!(get_bid_count_for_invoice(&storage, INVOICE), 0, "All bids removed from index");
    for bid_id in [bid1, bid2, bid3].iter() {
        let bid = storage.get_bid(*bid_id).unwrap();
        assert_eq!(bid.status, BidStatus::Expired, "Each bid marked as Expired");
    }
}

#[test]
fn test_cleanup_no_bids_expired() {
    let mut storage = BidStorage::new();
    let bid1 = create_and_place_bid(&mut storage, INVESTOR, INVOICE, 30_000, 30_300, START);
    let bid2 = create_and_place_bid(&mut storage, INVESTOR, INVOICE, 40_000, 40_400, START);
    assert_eq!(get_bid_count_for_invoice(&storage, INVOICE), 2);

    let ttl_days = storage.get_bid_ttl_days();
    let now = START + ttl_days * 86400 - 1;
    let cleaned = storage.cleanup_expired_bids(INVOICE, now);
    assert_eq!(cleaned, 0, "No expired bids to clean");
    assert_eq!(storage.get_bid(bid1).unwrap().status, BidStatus::Placed);
    assert_eq!(storage.get_bid(bid2).unwrap().status, BidStatus::Placed);
    assert_eq!(get_bid_count_for_invoice(&storage, INVOICE), 2);
}

// Bounded cleanup

#[test]
fn test_cleanup_bounded_linear_scaling() {
    let mut storage = BidStorage::new();
    let num_bids = 10u32;
    for i in 0..num_bids {
        let base_amount = 50_000 + (i as i128 * 1_000);
        create_and_place_bid(&mut storage, INVESTOR, INVOICE, base_amount, base_amount + 500, START);
    }
    assert_eq!(get_bid_count_for_invoice(&storage, INVOICE), num_bids, "All bids placed");

    let now = past_expiry(&storage);
    let cleaned = storage.cleanup_expired_bids(INVOICE, now);
    assert_eq!(cleaned, num_bids, "All bids cleaned");
    assert_eq!(get_bid_count_for_invoice(&storage, INVOICE), 0, "Index cleaned");
}

#[test]
fn test_cleanup_count_accuracy() {
    let mut storage = BidStorage::new();
    create_and_place_bid(&mut storage, INVESTOR, INVOICE, 30_000, 30_300, START);
    create_and_place_bid(&mut storage, INVESTOR, INVOICE, 40_000, 40_400, START);
    create_and_place_bid(&mut storage, INVESTOR, INVOICE, 50_000, 50_500, START);
    let bid_accepted = create_and_place_bid(&mut storage, INVESTOR_2, INVOICE, 60_000, 60_600, START);
    create_and_place_bid(&mut storage, INVESTOR_2, INVOICE, 70_000, 70_700, START);
    storage.accept_bid(bid_accepted, START).unwrap();
    assert_eq!(get_bid_count_for_invoice(&storage, INVOICE), 5, "5 bids placed");

    let now = past_expiry(&storage);
    let cleaned = storage.cleanup_expired_bids(INVOICE, now);
    assert_eq!(
        cleaned, 4,
        "Should remove 4 (3 expired Placed + 1 expired Placed, keep 1 Accepted)"
    );
    assert_eq!(get_bid_count_for_invoice(&storage, INVOICE), 1, "1 bid remains (Accepted)");
}

// Investor index

#[test]
fn test_investor_index_pruned_of_expired_bids() {
    let mut storage = BidStorage::new();
    let bid_id = create_and_place_bid(&mut storage, INVESTOR, INVOICE, 50_000, 50_500, START);
    let investor_bids_before = storage.get_bids_by_investor_all(INVESTOR);
    assert!(investor_bids_before.len() > 0, "Bid should be in investor index");

    let now = past_expiry(&storage);
    storage.cleanup_expired_bids(INVOICE, now);
    let investor_bids_after = storage.get_bids_by_investor_all(INVESTOR);
    assert_eq!(investor_bids_after, vec![bid_id]);
    let bid = storage.get_bid(bid_id).unwrap();
    assert_eq!(bid.status, BidStatus::Expired, "Bid should be marked Expired");
}

// Several invoices and investors

#[test]
fn test_comprehensive_cleanup_scenario() {
    let mut storage = BidStorage::new();
    create_and_place_bid(&mut storage, INVESTOR, INVOICE, 30_000, 30_300, START);
    create_and_place_bid(&mut storage, INVESTOR, INVOICE, 40_000, 40_400, START);
    let inv1_accepted = create_and_place_bid(&mut storage, INVESTOR_2, INVOICE, 50_000, 50_500, START);
    storage.accept_bid(inv1_accepted, START).unwrap();
    create_and_place_bid(&mut storage, INVESTOR_2, INVOICE, 60_000, 60_600, START);

    create_and_place_bid(&mut storage, INVESTOR, INVOICE_2, 70_000, 70_700, START);
    let inv2_withdrawn = create_and_place_bid(&mut storage, INVESTOR_2, INVOICE_2, 80_000, 80_800, START);
    storage.withdraw_bid(inv2_withdrawn).unwrap();
    create_and_place_bid(&mut storage, INVESTOR, INVOICE_2, 90_000, 90_900, START);

    assert_eq!(get_bid_count_for_invoice(&storage, INVOICE), 4);
    assert_eq!(get_bid_count_for_invoice(&storage, INVOICE_2), 3);

    let now = past_expiry(&storage);
    let cleaned1 = storage.cleanup_expired_bids(INVOICE, now);
    assert_eq!(cleaned1, 3, "Invoice 1: remove 3 Placed, keep 1 Accepted");
    let cleaned2 = storage.cleanup_expired_bids(INVOICE_2, now);
    assert_eq!(cleaned2, 2, "Invoice 2: remove 2 Placed, keep 1 Withdrawn");

    assert_eq!(get_bid_count_for_invoice(&storage, INVOICE), 1, "Invoice 1 has 1 bid (Accepted)");
    assert_eq!(get_bid_count_for_invoice(&storage, INVOICE_2), 1, "Invoice 2 has 1 bid (Withdrawn)");
    assert_eq!(storage.get_bid(inv1_accepted).unwrap().status, BidStatus::Accepted);
    assert_eq!(storage.get_bid(inv2_withdrawn).unwrap().status, BidStatus::Withdrawn);

    assert_eq!(storage.cleanup_expired_bids(INVOICE, now), 0);
    assert_eq!(storage.cleanup_expired_bids(INVOICE_2, now), 0);
}

// Cleanup over time

#[test]
fn cleanup_over_time_expires_each_bid_strictly_after_its_expiration() {
    let mut storage = BidStorage::new();
    let mut now = START;
    create_and_place_bid(&mut storage, INVESTOR, INVOICE, 1000, 1100, now);
    now += 86400;
    create_and_place_bid(&mut storage, INVESTOR, INVOICE, 2000, 2200, now);
    now += 86400 * 5;
    create_and_place_bid(&mut storage, INVESTOR, INVOICE, 3000, 3300, now);
    now += 86400 * 2;

    // The second bid expires at exactly this instant, so it is not yet pruned.
    assert_eq!(storage.cleanup_expired_bids(INVOICE, now), 1);
    assert_eq!(storage.cleanup_expired_bids(INVOICE, now + 1), 1);

    now += 86400 * 6;
    assert_eq!(storage.cleanup_expired_bids(INVOICE, now), 1);
    assert_eq!(storage.cleanup_expired_bids(INVOICE, now), 0);
    assert_eq!(get_bid_count_for_invoice(&storage, INVOICE), 0);
}

#[test]
fn test_cleanup_expired_bids_exact_boundary_and_off_by_one() {
    let mut storage = BidStorage::new();
    storage.set_bid_ttl_days(1).unwrap();
    let bid_id = create_and_place_bid(&mut storage, INVESTOR, INVOICE, 4000, 4300, START);
    let bid = storage.get_bid(bid_id).unwrap();

    let cleaned_at_exact = storage.cleanup_expired_bids(INVOICE, bid.expiration_timestamp);
    assert_eq!(
        cleaned_at_exact, 0,
        "cleanup must not expire bids at exact expiration timestamp"
    );
    let cleaned_after =
        storage.cleanup_expired_bids(INVOICE, bid.expiration_timestamp.saturating_add(1));
    assert_eq!(
        cleaned_after, 1,
        "cleanup must expire bid one second after expiration timestamp"
    );
    assert_eq!(
        storage.cleanup_expired_bids(INVOICE, bid.expiration_timestamp.saturating_add(1)),
        0,
        "cleanup remains idempotent after removing expired bid"
    );
}

// Further cases

#[test]
fn bid_ttl_configuration_bounds() {
    let mut storage = BidStorage::new();
    assert_eq!(storage.get_bid_ttl_days(), DEFAULT_BID_TTL_DAYS);
    assert_eq!(storage.set_bid_ttl_days(0), Err(QuickLendXError::InvalidTimestamp));
    assert_eq!(
        storage.set_bid_ttl_days(MAX_BID_TTL_DAYS + 1),
        Err(QuickLendXError::InvalidTimestamp)
    );
    assert_eq!(storage.get_bid_ttl_days(), DEFAULT_BID_TTL_DAYS);
    assert_eq!(storage.set_bid_ttl_days(MAX_BID_TTL_DAYS), Ok(()));
    assert_eq!(storage.get_bid_ttl_days(), MAX_BID_TTL_DAYS);
}

#[test]
fn place_bid_sets_fields_and_rejects_non_positive_amounts() {
    let mut storage = BidStorage::new();
    assert_eq!(
        storage.place_bid(INVESTOR, INVOICE, 0, 10, START),
        Err(QuickLendXError::InvalidAmount)
    );
    let id = storage.place_bid(INVESTOR, INVOICE, 500, 550, 1_000).unwrap();
    assert_eq!(id, 0);
    let bid = storage.get_bid(id).unwrap();
    assert_eq!(bid.bid_amount, 500);
    assert_eq!(bid.expected_return, 550);
    assert_eq!(bid.timestamp, 1_000);
    assert_eq!(bid.expiration_timestamp, 1_000 + 7 * 86_400);
    assert_eq!(bid.status, BidStatus::Placed);
    let late = storage.place_bid(INVESTOR, INVOICE, 500, 550, u64::MAX - 5).unwrap();
    assert_eq!(storage.get_bid(late).unwrap().expiration_timestamp, u64::MAX);
    assert!(storage.get_bid(99).is_none());
}

#[test]
fn bid_transitions_reject_unknown_and_settled_bids() {
    let mut storage = BidStorage::new();
    let id = create_and_place_bid(&mut storage, INVESTOR, INVOICE, 500, 550, START);
    assert_eq!(storage.withdraw_bid(7), Err(QuickLendXError::StorageKeyNotFound));
    assert_eq!(storage.accept_bid(7, START), Err(QuickLendXError::StorageKeyNotFound));
    let expired_at = storage.get_bid(id).unwrap().expiration_timestamp + 1;
    assert_eq!(storage.accept_bid(id, expired_at), Err(QuickLendXError::InvalidStatus));
    assert_eq!(storage.withdraw_bid(id), Ok(()));
    assert_eq!(storage.cancel_bid(id), Err(QuickLendXError::InvalidStatus));
    assert_eq!(storage.accept_bid(id, START), Err(QuickLendXError::InvalidStatus));
}
