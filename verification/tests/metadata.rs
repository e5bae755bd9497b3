use quicklendx::invoice_id::InvoiceId;
use quicklendx::errors::QuickLendXError;
use quicklendx::invoice::{
    Invoice, InvoiceCategory, InvoiceMetadata, InvoiceRegistry, InvoiceStatus, LineItemRecord,
};
use quicklendx::protocol_limits::ProtocolLimits;

const BUSINESS: u64 = 10;
const ATTACKER: u64 = 66;
const CURRENCY: u64 = 20;
const NOW: u64 = 1_000;

fn text(s: &str) -> Vec<u8> {
    s.as_bytes().to_vec()
}

fn make_invoice(business: u64) -> Invoice {
    Invoice {
        id: InvoiceId { timestamp: 0, sequence: 0, counter: 0 },
        business,
        amount: 1000,
        currency: CURRENCY,
        due_date: NOW + 86400,
        created_at: NOW,
        description: text("Test invoice"),
        category: InvoiceCategory::Services,
        tags: Vec::new(),
        status: InvoiceStatus::Pending,
        metadata_customer_name: None,
        metadata_customer_address: None,
        metadata_tax_id: None,
        metadata_notes: None,
        metadata_line_items: Vec::new(),
        ratings: Vec::new(),
    }
}

fn make_metadata() -> InvoiceMetadata {
    InvoiceMetadata {
        customer_name: text("Acme Corp"),
        customer_address: text("42 Blockchain Ave"),
        tax_id: text("TAX-999"),
        line_items: vec![LineItemRecord(text("Consulting"), 1, 1000, 1000)],
        notes: text("Net 30"),
    }
}

fn make_alt_metadata() -> InvoiceMetadata {
    InvoiceMetadata {
        customer_name: text("Beta Inc"),
        customer_address: text("99 Stellar Blvd"),
        tax_id: text("TAX-888"),
        line_items: vec![LineItemRecord(text("Development"), 2, 500, 1000)],
        notes: text("Urgent"),
    }
}

/// A registry holding one freshly uploaded invoice of `BUSINESS`.
fn stored_invoice() -> (InvoiceRegistry, InvoiceId) {
    let limits = ProtocolLimits::default_limits();
    let mut registry = InvoiceRegistry::new();
    let id = registry
        .store_invoice(
            &limits,
            BUSINESS,
            1000,
            CURRENCY,
            NOW + 86400,
            text("Test invoice"),
            InvoiceCategory::Services,
            &Vec::new(),
            NOW,
            0,
        )
        .unwrap();
    (registry, id)
}

#[test]
fn test_owner_can_update_metadata() {
    let mut invoice = make_invoice(BUSINESS);
    let metadata = make_metadata();
    let result = invoice.update_metadata(BUSINESS, metadata.clone());
    assert!(result.is_ok());
    assert_eq!(invoice.metadata_customer_name, Some(metadata.customer_name));
    assert_eq!(invoice.metadata_customer_address, Some(metadata.customer_address));
    assert_eq!(invoice.metadata_tax_id, Some(metadata.tax_id));
    assert_eq!(invoice.metadata_notes, Some(metadata.notes));
    assert_eq!(invoice.metadata_line_items.len(), 1);
}

#[test]
fn test_non_owner_update_metadata_returns_unauthorized() {
    let mut invoice = make_invoice(BUSINESS);
    let result = invoice.update_metadata(ATTACKER, make_metadata());
    assert_eq!(result, Err(QuickLendXError::Unauthorized));
}

#[test]
fn test_non_owner_clear_metadata_returns_unauthorized() {
    let mut invoice = make_invoice(BUSINESS);
    invoice.update_metadata(BUSINESS, make_metadata()).unwrap();
    let result = invoice.clear_metadata(ATTACKER);
    assert_eq!(result, Err(QuickLendXError::Unauthorized));
}

#[test]
fn test_no_partial_write_on_unauthorized_update() {
    let mut invoice = make_invoice(BUSINESS);
    invoice.update_metadata(BUSINESS, make_metadata()).unwrap();
    let pre_name = invoice.metadata_customer_name.clone();
    let pre_addr = invoice.metadata_customer_address.clone();
    let pre_tax = invoice.metadata_tax_id.clone();
    let pre_notes = invoice.metadata_notes.clone();
    let pre_items_len = invoice.metadata_line_items.len();

    let result = invoice.update_metadata(ATTACKER, make_alt_metadata());
    assert!(result.is_err());
    assert_eq!(invoice.metadata_customer_name, pre_name);
    assert_eq!(invoice.metadata_customer_address, pre_addr);
    assert_eq!(invoice.metadata_tax_id, pre_tax);
    assert_eq!(invoice.metadata_notes, pre_notes);
    assert_eq!(invoice.metadata_line_items.len(), pre_items_len);
}

#[test]
fn test_no_partial_write_on_unauthorized_clear() {
    let mut invoice = make_invoice(BUSINESS);
    invoice.update_metadata(BUSINESS, make_metadata()).unwrap();
    let result = invoice.clear_metadata(ATTACKER);
    assert!(result.is_err());
    assert!(invoice.metadata_customer_name.is_some());
    assert!(invoice.metadata_customer_address.is_some());
    assert!(invoice.metadata_tax_id.is_some());
    assert!(invoice.metadata_notes.is_some());
    assert_eq!(invoice.metadata_line_items.len(), 1);
}

#[test]
fn test_owner_can_clear_metadata() {
    let mut invoice = make_invoice(BUSINESS);
    invoice.update_metadata(BUSINESS, make_metadata()).unwrap();
    let result = invoice.clear_metadata(BUSINESS);
    assert!(result.is_ok());
    assert!(invoice.metadata_customer_name.is_none());
    assert!(invoice.metadata_customer_address.is_none());
    assert!(invoice.metadata_tax_id.is_none());
    assert!(invoice.metadata_notes.is_none());
    assert_eq!(invoice.metadata_line_items.len(), 0);
}

#[test]
fn test_clear_empty_metadata_is_idempotent() {
    let mut invoice = make_invoice(BUSINESS);
    let result = invoice.clear_metadata(BUSINESS);
    assert!(result.is_ok());
    assert!(invoice.metadata_customer_name.is_none());
}

#[test]
fn test_indexes_created_on_owner_update() {
    let (mut registry, id) = stored_invoice();
    let metadata = make_metadata();
    registry.update_invoice_metadata(id, BUSINESS, metadata.clone()).unwrap();
    assert!(registry.get_invoices_by_customer(&metadata.customer_name).contains(&id));
    assert!(registry.get_invoices_by_tax_id(&metadata.tax_id).contains(&id));
}

#[test]
fn test_indexes_unchanged_after_unauthorized_update() {
    let (mut registry, id) = stored_invoice();
    let original = make_metadata();
    registry.update_invoice_metadata(id, BUSINESS, original.clone()).unwrap();
    let alt = make_alt_metadata();
    let _ = registry.update_invoice_metadata(id, ATTACKER, alt.clone());
    assert!(registry.get_invoices_by_customer(&original.customer_name).contains(&id));
    assert!(!registry.get_invoices_by_customer(&alt.customer_name).contains(&id));
}

#[test]
fn test_indexes_removed_on_owner_clear() {
    let (mut registry, id) = stored_invoice();
    let metadata = make_metadata();
    registry.update_invoice_metadata(id, BUSINESS, metadata.clone()).unwrap();
    registry.clear_invoice_metadata(id, BUSINESS).unwrap();
    assert!(!registry.get_invoices_by_customer(&metadata.customer_name).contains(&id));
    assert!(!registry.get_invoices_by_tax_id(&metadata.tax_id).contains(&id));
}

#[test]
fn test_indexes_swap_on_owner_metadata_change() {
    let (mut registry, id) = stored_invoice();
    let original = make_metadata();
    registry.update_invoice_metadata(id, BUSINESS, original.clone()).unwrap();
    let alt = make_alt_metadata();
    registry.update_invoice_metadata(id, BUSINESS, alt.clone()).unwrap();
    assert!(!registry.get_invoices_by_customer(&original.customer_name).contains(&id));
    assert!(registry.get_invoices_by_customer(&alt.customer_name).contains(&id));
}

#[test]
fn test_invalid_metadata_does_not_modify_state() {
    let mut invoice = make_invoice(BUSINESS);
    let valid = make_metadata();
    invoice.update_metadata(BUSINESS, valid.clone()).unwrap();
    let invalid = InvoiceMetadata {
        customer_name: text(""),
        customer_address: text("Addr"),
        tax_id: text("T"),
        line_items: Vec::new(),
        notes: text(""),
    };
    let result = invoice.update_metadata(BUSINESS, invalid);
    assert!(result.is_err());
    assert_eq!(invoice.metadata_customer_name, Some(valid.customer_name));
}

#[test]
fn test_multiple_attackers_all_rejected() {
    let mut invoice = make_invoice(BUSINESS);
    let metadata = make_metadata();
    for attacker in [ATTACKER, ATTACKER + 1, ATTACKER + 2] {
        assert_eq!(
            invoice.update_metadata(attacker, metadata.clone()),
            Err(QuickLendXError::Unauthorized)
        );
        assert_eq!(invoice.clear_metadata(attacker), Err(QuickLendXError::Unauthorized));
    }
    assert!(invoice.metadata_customer_name.is_none());
}

#[test]
fn test_owner_succeeds_after_attacker_fails() {
    let mut invoice = make_invoice(BUSINESS);
    let metadata = make_metadata();
    let _ = invoice.update_metadata(ATTACKER, metadata.clone());
    let result = invoice.update_metadata(BUSINESS, metadata.clone());
    assert!(result.is_ok());
    assert_eq!(invoice.metadata_customer_name, Some(metadata.customer_name));
}

// Further cases

#[test]
fn test_metadata_validation_limits() {
    let mut invoice = make_invoice(BUSINESS);
    let mut long_name = make_metadata();
    long_name.customer_name = vec![b'a'; 1000];
    assert_eq!(
        invoice.update_metadata(BUSINESS, long_name),
        Err(QuickLendXError::InvalidDescription)
    );
    let mut long_notes = make_metadata();
    long_notes.notes = vec![b'n'; 10_000];
    assert_eq!(
        invoice.update_metadata(BUSINESS, long_notes),
        Err(QuickLendXError::InvalidDescription)
    );
    assert!(invoice.metadata_customer_name.is_none());
}

#[test]
fn test_unauthorized_checked_before_validation() {
    let mut invoice = make_invoice(BUSINESS);
    let mut invalid = make_metadata();
    invalid.customer_name = Vec::new();
    assert_eq!(invoice.update_metadata(ATTACKER, invalid), Err(QuickLendXError::Unauthorized));
}

#[test]
fn test_registry_metadata_unknown_invoice() {
    let (mut registry, id) = stored_invoice();
    assert_eq!(
        registry.update_invoice_metadata(InvoiceId { counter: id.counter + 1, ..id }, BUSINESS, make_metadata()),
        Err(QuickLendXError::InvoiceNotFound)
    );
    assert_eq!(
        registry.clear_invoice_metadata(InvoiceId { counter: id.counter + 1, ..id }, BUSINESS),
        Err(QuickLendXError::InvoiceNotFound)
    );
    assert_eq!(
        registry.clear_invoice_metadata(id, ATTACKER),
        Err(QuickLendXError::Unauthorized)
    );
}

#[test]
fn test_customer_index_lists_invoices_in_upload_order() {
    let limits = ProtocolLimits::default_limits();
    let mut registry = InvoiceRegistry::new();
    let mut ids = Vec::new();
    for _ in 0..3 {
        ids.push(
            registry
                .store_invoice(
                    &limits,
                    BUSINESS,
                    1000,
                    CURRENCY,
                    NOW + 86400,
                    text("Invoice"),
                    InvoiceCategory::Services,
                    &Vec::new(),
                    NOW,
                    0,
                )
                .unwrap(),
        );
    }
    registry.update_invoice_metadata(ids[2], BUSINESS, make_metadata()).unwrap();
    registry.update_invoice_metadata(ids[0], BUSINESS, make_metadata()).unwrap();
    registry.update_invoice_metadata(ids[1], BUSINESS, make_alt_metadata()).unwrap();
    assert_eq!(registry.get_invoices_by_customer(&text("Acme Corp")), vec![ids[0], ids[2]]);
    assert_eq!(registry.get_invoices_by_tax_id(&text("TAX-888")), vec![ids[1]]);
    assert!(registry.get_invoices_by_customer(&text("Nobody")).is_empty());
}
