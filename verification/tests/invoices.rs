use quicklendx::invoice_id::InvoiceId;
use quicklendx::errors::QuickLendXError;
use quicklendx::invoice::{assert_counts_invariant, InvoiceCategory, InvoiceRegistry, InvoiceStatus};
use quicklendx::protocol_limits::ProtocolLimits;

const ADMIN: u64 = 2;
const BUSINESS: u64 = 10;
const BUSINESS_2: u64 = 11;
const CURRENCY: u64 = 20;
const NOW: u64 = 1_000;
const DUE: u64 = NOW + 86_400;

fn tags(list: &[&str]) -> Vec<Vec<u8>> {
    list.iter().map(|t| t.as_bytes().to_vec()).collect()
}

fn limits_with_cap(cap: u32) -> ProtocolLimits {
    let mut limits = ProtocolLimits::default_limits();
    limits
        .update_limits_max_invoices(ADMIN, Some(ADMIN), 10, 365, 0, cap)
        .unwrap();
    limits
}

fn store(
    registry: &mut InvoiceRegistry,
    limits: &ProtocolLimits,
    business: u64,
    tag_list: &[&str],
) -> Result<InvoiceId, QuickLendXError> {
    registry.store_invoice(
        limits,
        business,
        1000,
        CURRENCY,
        DUE,
        b"Invoice".to_vec(),
        InvoiceCategory::Services,
        &tags(tag_list),
        NOW,
        0,
    )
}

fn status_of(registry: &InvoiceRegistry, id: InvoiceId) -> InvoiceStatus {
    registry.get_invoice(id).unwrap().status
}

fn settle(registry: &mut InvoiceRegistry, id: InvoiceId) {
    registry.update_invoice_status(id, InvoiceStatus::Verified).unwrap();
    registry.update_invoice_status(id, InvoiceStatus::Funded).unwrap();
    registry.update_invoice_status(id, InvoiceStatus::Paid).unwrap();
}

// Status transitions and per-status counts

#[test]
fn test_admin_update_invoice_status_pathway_moves_indexes_and_rejects_invalid_transition() {
    let limits = ProtocolLimits::default_limits();
    let mut registry = InvoiceRegistry::new();
    let id = store(&mut registry, &limits, BUSINESS, &[]).unwrap();
    assert_eq!(registry.get_invoice_count_by_status(InvoiceStatus::Pending), 1);

    registry.update_invoice_status(id, InvoiceStatus::Verified).unwrap();
    assert_eq!(registry.get_invoice_count_by_status(InvoiceStatus::Pending), 0);
    assert_eq!(registry.get_invoice_count_by_status(InvoiceStatus::Verified), 1);

    registry.update_invoice_status(id, InvoiceStatus::Funded).unwrap();
    assert_eq!(registry.get_invoice_count_by_status(InvoiceStatus::Verified), 0);
    assert_eq!(registry.get_invoice_count_by_status(InvoiceStatus::Funded), 1);

    assert_eq!(
        registry.update_invoice_status(id, InvoiceStatus::Verified),
        Err(QuickLendXError::InvalidStatus)
    );

    registry.update_invoice_status(id, InvoiceStatus::Defaulted).unwrap();
    assert_eq!(registry.get_invoice_count_by_status(InvoiceStatus::Funded), 0);
    assert_eq!(registry.get_invoice_count_by_status(InvoiceStatus::Defaulted), 1);
    assert!(assert_counts_invariant(&registry));
}

#[test]
fn counts_invariant_holds_across_lifecycle() {
    let limits = ProtocolLimits::default_limits();
    let mut registry = InvoiceRegistry::new();
    assert!(assert_counts_invariant(&registry));
    let a = store(&mut registry, &limits, BUSINESS, &[]).unwrap();
    let b = store(&mut registry, &limits, BUSINESS, &[]).unwrap();
    let c = store(&mut registry, &limits, BUSINESS_2, &[]).unwrap();
    assert!(assert_counts_invariant(&registry));
    settle(&mut registry, a);
    registry.cancel_invoice(b).unwrap();
    registry.update_invoice_status(c, InvoiceStatus::Verified).unwrap();
    assert!(assert_counts_invariant(&registry));
    assert_eq!(registry.get_total_invoice_count(), 3);
    assert_eq!(registry.get_invoices_by_status(InvoiceStatus::Paid), vec![a]);
    assert_eq!(registry.get_invoices_by_status(InvoiceStatus::Cancelled), vec![b]);
    assert_eq!(registry.get_invoices_by_status(InvoiceStatus::Verified), vec![c]);
    assert!(registry.get_invoices_by_status(InvoiceStatus::Pending).is_empty());
}

#[test]
fn refund_path_from_funded() {
    let limits = ProtocolLimits::default_limits();
    let mut registry = InvoiceRegistry::new();
    let id = store(&mut registry, &limits, BUSINESS, &[]).unwrap();
    registry.update_invoice_status(id, InvoiceStatus::Verified).unwrap();
    registry.update_invoice_status(id, InvoiceStatus::Funded).unwrap();
    registry.update_invoice_status(id, InvoiceStatus::Refunded).unwrap();
    assert_eq!(status_of(&registry, id), InvoiceStatus::Refunded);
    assert_eq!(
        registry.update_invoice_status(id, InvoiceStatus::Paid),
        Err(QuickLendXError::InvalidStatus)
    );
}

#[test]
fn funded_invoice_can_be_cancelled_but_not_a_paid_one() {
    let limits = ProtocolLimits::default_limits();
    let mut registry = InvoiceRegistry::new();
    let id = store(&mut registry, &limits, BUSINESS, &[]).unwrap();
    registry.update_invoice_status(id, InvoiceStatus::Verified).unwrap();
    registry.update_invoice_status(id, InvoiceStatus::Funded).unwrap();
    registry.cancel_invoice(id).unwrap();
    assert_eq!(status_of(&registry, id), InvoiceStatus::Cancelled);
    let paid = store(&mut registry, &limits, BUSINESS, &[]).unwrap();
    settle(&mut registry, paid);
    assert_eq!(registry.cancel_invoice(paid), Err(QuickLendXError::InvalidStatus));
    assert_eq!(status_of(&registry, paid), InvoiceStatus::Paid);
}

#[test]
fn missing_invoice_reported() {
    let mut registry = InvoiceRegistry::new();
    let missing = InvoiceId { timestamp: NOW, sequence: 0, counter: 3 };
    assert_eq!(
        registry.update_invoice_status(missing, InvoiceStatus::Verified),
        Err(QuickLendXError::InvoiceNotFound)
    );
    assert_eq!(registry.cancel_invoice(missing), Err(QuickLendXError::InvoiceNotFound));
    assert!(registry.get_invoice(missing).is_none());
}

#[test]
fn terminal_invoice_statuses() {
    assert!(!InvoiceStatus::Pending.is_terminal());
    assert!(!InvoiceStatus::Verified.is_terminal());
    assert!(!InvoiceStatus::Funded.is_terminal());
    assert!(InvoiceStatus::Paid.is_terminal());
    assert!(InvoiceStatus::Defaulted.is_terminal());
    assert!(InvoiceStatus::Cancelled.is_terminal());
    assert!(InvoiceStatus::Refunded.is_terminal());
    assert_eq!(
        InvoiceStatus::validate_transition(&InvoiceStatus::Pending, &InvoiceStatus::Funded),
        Err(QuickLendXError::InvalidStatus)
    );
}

#[test]
fn stored_invoice_keeps_its_fields() {
    let limits = ProtocolLimits::default_limits();
    let mut registry = InvoiceRegistry::new();
    let id = registry
        .store_invoice(
            &limits,
            BUSINESS,
            10_000,
            CURRENCY,
            DUE,
            b"Consulting services invoice".to_vec(),
            InvoiceCategory::Consulting,
            &Vec::new(),
            NOW,
            0,
        )
        .unwrap();
    assert_eq!(id, InvoiceId { timestamp: NOW, sequence: 0, counter: 0 });
    let bytes = id.to_bytes();
    assert_eq!(bytes[..8], NOW.to_be_bytes());
    assert_eq!(bytes[8..16], [0u8; 8]);
    assert_eq!(bytes[16..], [0u8; 16]);
    assert_eq!(InvoiceId::from_bytes(&bytes), Some(id));
    let invoice = registry.get_invoice(id).unwrap();
    assert_eq!(invoice.status, InvoiceStatus::Pending);
    assert_eq!(invoice.amount, 10_000);
    assert_eq!(invoice.business, BUSINESS);
    assert_eq!(invoice.currency, CURRENCY);
    assert_eq!(invoice.due_date, DUE);
    assert_eq!(invoice.created_at, NOW);
    assert_eq!(invoice.category, InvoiceCategory::Consulting);
    assert_eq!(invoice.description, b"Consulting services invoice".to_vec());
    let second = store(&mut registry, &limits, BUSINESS, &[]).unwrap();
    assert_eq!(second, InvoiceId { timestamp: NOW, sequence: 0, counter: 1 });
    assert_eq!(second.to_bytes()[15], 1);
}

// Cap on active invoices per business

#[test]
fn test_upload_invoice_enforces_max_invoices_per_business() {
    let limits = limits_with_cap(3);
    let mut registry = InvoiceRegistry::new();
    for _ in 0..3 {
        store(&mut registry, &limits, BUSINESS, &[]).unwrap();
    }
    assert_eq!(
        store(&mut registry, &limits, BUSINESS, &[]),
        Err(QuickLendXError::MaxInvoicesPerBusinessExceeded)
    );
}

#[test]
fn test_cancelled_invoices_free_up_slots() {
    let limits = limits_with_cap(2);
    let mut registry = InvoiceRegistry::new();
    let invoice1 = store(&mut registry, &limits, BUSINESS, &[]).unwrap();
    store(&mut registry, &limits, BUSINESS, &[]).unwrap();
    assert_eq!(
        store(&mut registry, &limits, BUSINESS, &[]),
        Err(QuickLendXError::MaxInvoicesPerBusinessExceeded)
    );
    registry.cancel_invoice(invoice1).unwrap();
    assert_eq!(status_of(&registry, invoice1), InvoiceStatus::Cancelled);
    store(&mut registry, &limits, BUSINESS, &[]).unwrap();
    assert_eq!(registry.count_active_business_invoices(BUSINESS), 2);
}

#[test]
fn test_paid_invoices_free_up_slots() {
    let limits = limits_with_cap(2);
    let mut registry = InvoiceRegistry::new();
    let invoice1 = store(&mut registry, &limits, BUSINESS, &[]).unwrap();
    store(&mut registry, &limits, BUSINESS, &[]).unwrap();
    settle(&mut registry, invoice1);
    store(&mut registry, &limits, BUSINESS, &[]).unwrap();
    assert_eq!(registry.count_active_business_invoices(BUSINESS), 2);
}

#[test]
fn test_limit_zero_disables_max_invoices_check() {
    let limits = limits_with_cap(0);
    let mut registry = InvoiceRegistry::new();
    for _ in 0..10 {
        store(&mut registry, &limits, BUSINESS, &[]).unwrap();
    }
    assert_eq!(registry.count_active_business_invoices(BUSINESS), 10);
}

#[test]
fn test_multiple_businesses_independent_limits() {
    let limits = limits_with_cap(2);
    let mut registry = InvoiceRegistry::new();
    store(&mut registry, &limits, BUSINESS, &[]).unwrap();
    store(&mut registry, &limits, BUSINESS, &[]).unwrap();
    assert_eq!(
        store(&mut registry, &limits, BUSINESS, &[]),
        Err(QuickLendXError::MaxInvoicesPerBusinessExceeded)
    );
    store(&mut registry, &limits, BUSINESS_2, &[]).unwrap();
    store(&mut registry, &limits, BUSINESS_2, &[]).unwrap();
    assert_eq!(registry.count_active_business_invoices(BUSINESS), 2);
    assert_eq!(registry.count_active_business_invoices(BUSINESS_2), 2);
}

#[test]
fn test_only_active_invoices_count_toward_limit() {
    let limits = limits_with_cap(3);
    let mut registry = InvoiceRegistry::new();
    let invoice1 = store(&mut registry, &limits, BUSINESS, &[]).unwrap();
    let invoice2 = store(&mut registry, &limits, BUSINESS, &[]).unwrap();
    store(&mut registry, &limits, BUSINESS, &[]).unwrap();

    registry.cancel_invoice(invoice1).unwrap();
    settle(&mut registry, invoice2);
    assert_eq!(registry.count_active_business_invoices(BUSINESS), 1);

    store(&mut registry, &limits, BUSINESS, &[]).unwrap();
    store(&mut registry, &limits, BUSINESS, &[]).unwrap();
    assert_eq!(registry.count_active_business_invoices(BUSINESS), 3);

    assert_eq!(
        store(&mut registry, &limits, BUSINESS, &[]),
        Err(QuickLendXError::MaxInvoicesPerBusinessExceeded)
    );
}

#[test]
fn test_limit_of_one() {
    let limits = limits_with_cap(1);
    let mut registry = InvoiceRegistry::new();
    let invoice1 = store(&mut registry, &limits, BUSINESS, &[]).unwrap();
    assert_eq!(
        store(&mut registry, &limits, BUSINESS, &[]),
        Err(QuickLendXError::MaxInvoicesPerBusinessExceeded)
    );
    registry.cancel_invoice(invoice1).unwrap();
    store(&mut registry, &limits, BUSINESS, &[]).unwrap();
}

#[test]
fn invalid_parameters_reported_before_the_cap() {
    let limits = limits_with_cap(1);
    let mut registry = InvoiceRegistry::new();
    store(&mut registry, &limits, BUSINESS, &[]).unwrap();
    assert_eq!(
        registry.store_invoice(
            &limits,
            BUSINESS,
            0,
            CURRENCY,
            DUE,
            b"Invoice".to_vec(),
            InvoiceCategory::Services,
            &Vec::new(),
            NOW,
            0,
        ),
        Err(QuickLendXError::InvalidAmount)
    );
}

// Tag normalization

#[test]
fn test_tag_stored_as_lowercase() {
    let limits = ProtocolLimits::default_limits();
    let mut registry = InvoiceRegistry::new();
    let id = store(&mut registry, &limits, BUSINESS, &["Technology"]).unwrap();
    let stored = &registry.get_invoice(id).unwrap().tags;
    assert_eq!(stored.len(), 1);
    assert_eq!(stored[0], b"technology".to_vec());
}

#[test]
fn test_tag_whitespace_trimmed() {
    let limits = ProtocolLimits::default_limits();
    let mut registry = InvoiceRegistry::new();
    let id = store(&mut registry, &limits, BUSINESS, &["  tech  "]).unwrap();
    let stored = &registry.get_invoice(id).unwrap().tags;
    assert_eq!(stored.len(), 1);
    assert_eq!(stored[0], b"tech".to_vec());
}

#[test]
fn test_whitespace_only_tag_rejected() {
    let limits = ProtocolLimits::default_limits();
    let mut registry = InvoiceRegistry::new();
    assert_eq!(
        store(&mut registry, &limits, BUSINESS, &["   "]),
        Err(QuickLendXError::InvalidTag)
    );
    assert_eq!(registry.get_total_invoice_count(), 0);
}

#[test]
fn test_case_duplicate_tags_rejected_at_creation() {
    let limits = ProtocolLimits::default_limits();
    let mut registry = InvoiceRegistry::new();
    assert_eq!(
        store(&mut registry, &limits, BUSINESS, &["tech", "Tech"]),
        Err(QuickLendXError::InvalidTag)
    );
}

#[test]
fn test_whitespace_duplicate_tags_rejected_at_creation() {
    let limits = ProtocolLimits::default_limits();
    let mut registry = InvoiceRegistry::new();
    assert_eq!(
        store(&mut registry, &limits, BUSINESS, &["tech", " tech "]),
        Err(QuickLendXError::InvalidTag)
    );
}

#[test]
fn test_add_tag_case_idempotent() {
    let limits = ProtocolLimits::default_limits();
    let mut registry = InvoiceRegistry::new();
    let id = store(&mut registry, &limits, BUSINESS, &[]).unwrap();
    registry.add_invoice_tag(id, &b"tech".to_vec()).unwrap();
    registry.add_invoice_tag(id, &b"Tech".to_vec()).unwrap();
    registry.add_invoice_tag(id, &b"TECH".to_vec()).unwrap();
    let tags = &registry.get_invoice(id).unwrap().tags;
    assert_eq!(tags.len(), 1);
    assert_eq!(tags[0], b"tech".to_vec());
}

#[test]
fn test_add_tag_with_padding_normalized() {
    let limits = ProtocolLimits::default_limits();
    let mut registry = InvoiceRegistry::new();
    let id = store(&mut registry, &limits, BUSINESS, &[]).unwrap();
    registry.add_invoice_tag(id, &b"  urgent  ".to_vec()).unwrap();
    let tags = &registry.get_invoice(id).unwrap().tags;
    assert_eq!(tags.len(), 1);
    assert_eq!(tags[0], b"urgent".to_vec());
}

#[test]
fn add_tag_rejects_invalid_and_excess_tags() {
    let limits = ProtocolLimits::default_limits();
    let mut registry = InvoiceRegistry::new();
    let ten = [
        "t0", "t1", "t2", "t3", "t4", "t5", "t6", "t7", "t8", "t9",
    ];
    let id = store(&mut registry, &limits, BUSINESS, &ten).unwrap();
    assert_eq!(
        registry.add_invoice_tag(id, &b" \t ".to_vec()),
        Err(QuickLendXError::InvalidTag)
    );
    assert_eq!(
        registry.add_invoice_tag(id, &b"t10".to_vec()),
        Err(QuickLendXError::TagLimitExceeded)
    );
    // A tag already carried is accepted without change, even at the limit.
    assert_eq!(registry.add_invoice_tag(id, &b"T9".to_vec()), Ok(()));
    assert_eq!(registry.get_invoice(id).unwrap().tags.len(), 10);
    assert_eq!(
        registry.add_invoice_tag(InvoiceId { counter: 99, ..id }, &b"x".to_vec()),
        Err(QuickLendXError::InvoiceNotFound)
    );
}

#[test]
fn test_remove_tag_case_insensitive() {
    let limits = ProtocolLimits::default_limits();
    let mut registry = InvoiceRegistry::new();
    let id = store(&mut registry, &limits, BUSINESS, &["tech"]).unwrap();
    registry.remove_invoice_tag(id, &b"TECH".to_vec()).unwrap();
    assert_eq!(registry.get_invoice(id).unwrap().tags.len(), 0);
}

#[test]
fn remove_tag_keeps_the_others_in_order() {
    let limits = ProtocolLimits::default_limits();
    let mut registry = InvoiceRegistry::new();
    let id = store(&mut registry, &limits, BUSINESS, &["a", "b", "c"]).unwrap();
    registry.remove_invoice_tag(id, &b" B".to_vec()).unwrap();
    assert_eq!(registry.get_invoice(id).unwrap().tags, tags(&["a", "c"]));
    registry.remove_invoice_tag(id, &b"zzz".to_vec()).unwrap();
    assert_eq!(registry.get_invoice(id).unwrap().tags, tags(&["a", "c"]));
    assert_eq!(
        registry.remove_invoice_tag(InvoiceId { counter: 99, ..id }, &b"a".to_vec()),
        Err(QuickLendXError::InvoiceNotFound)
    );
}

#[test]
fn test_has_tag_case_insensitive() {
    let limits = ProtocolLimits::default_limits();
    let mut registry = InvoiceRegistry::new();
    let id = store(&mut registry, &limits, BUSINESS, &["tech"]).unwrap();
    assert!(registry.invoice_has_tag(id, &b"Tech".to_vec()).unwrap());
    assert!(registry.invoice_has_tag(id, &b"TECH".to_vec()).unwrap());
    assert!(registry.invoice_has_tag(id, &b" tech ".to_vec()).unwrap());
    assert!(!registry.invoice_has_tag(id, &b"finance".to_vec()).unwrap());
    assert_eq!(
        registry.invoice_has_tag(InvoiceId { counter: 99, ..id }, &b"tech".to_vec()),
        Err(QuickLendXError::InvoiceNotFound)
    );
}

// Tag queries normalize the query

#[test]
fn test_tag_query_case_insensitive() {
    let limits = ProtocolLimits::default_limits();
    let mut registry = InvoiceRegistry::new();
    let id = store(&mut registry, &limits, BUSINESS, &["technology"]).unwrap();
    let results = registry.get_invoices_by_tag(&b"Technology".to_vec());
    assert!(results.contains(&id));
    let results2 = registry.get_invoices_by_tag(&b"TECHNOLOGY".to_vec());
    assert!(results2.contains(&id));
}

#[test]
fn test_tag_count_case_insensitive() {
    let limits = ProtocolLimits::default_limits();
    let mut registry = InvoiceRegistry::new();
    store(&mut registry, &limits, BUSINESS, &["urgent"]).unwrap();
    assert_eq!(registry.get_invoice_count_by_tag(&b"URGENT".to_vec()), 1);
    assert_eq!(registry.get_invoice_count_by_tag(&b"Urgent".to_vec()), 1);
    assert_eq!(registry.get_invoice_count_by_tag(&b"urgent".to_vec()), 1);
}

#[test]
fn test_multi_tag_query_case_insensitive() {
    let limits = ProtocolLimits::default_limits();
    let mut registry = InvoiceRegistry::new();
    let id = store(&mut registry, &limits, BUSINESS, &["tech", "urgent"]).unwrap();
    let results = registry.get_invoices_by_tags(&tags(&["TECH", "Urgent"]));
    assert!(results.contains(&id));
}

#[test]
fn tag_queries_select_only_matching_invoices() {
    let limits = ProtocolLimits::default_limits();
    let mut registry = InvoiceRegistry::new();
    let a = store(&mut registry, &limits, BUSINESS, &["tech", "urgent"]).unwrap();
    let b = store(&mut registry, &limits, BUSINESS, &["tech"]).unwrap();
    store(&mut registry, &limits, BUSINESS, &["retail"]).unwrap();
    assert_eq!(registry.get_invoices_by_tag(&b" Tech".to_vec()), vec![a, b]);
    assert_eq!(registry.get_invoices_by_tags(&tags(&["tech", "URGENT"])), vec![a]);
    assert_eq!(registry.get_invoice_count_by_tag(&b"missing".to_vec()), 0);
    assert_eq!(registry.get_invoices_by_tags(&tags(&[])).len(), 3);
}
