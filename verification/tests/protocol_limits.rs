use quicklendx::invoice_id::InvoiceId;
use quicklendx::errors::QuickLendXError;
use quicklendx::invoice::{InvoiceCategory, InvoiceRegistry};
use quicklendx::protocol_limits::{
    check_string_length, normalize_tag, validate_invoice_params, ProtocolLimits,
    MAX_DESCRIPTION_LENGTH, MAX_TAG_LENGTH,
};

const ADMIN: u64 = 2;
const STRANGER: u64 = 3;
const BUSINESS: u64 = 10;
const CURRENCY: u64 = 20;
const NOW: u64 = 1_000_000;

fn make_str(n: usize) -> Vec<u8> {
    vec![b'a'; n]
}

fn limits(min: i128, days: u64, grace: u64) -> ProtocolLimits {
    let mut l = ProtocolLimits::default_limits();
    l.set_protocol_limits(ADMIN, Some(ADMIN), min, days, grace).unwrap();
    l
}

fn store_full(
    limits: &ProtocolLimits,
    amount: i128,
    due: u64,
    desc: Vec<u8>,
    tags: Vec<Vec<u8>>,
) -> Result<InvoiceId, QuickLendXError> {
    let mut registry = InvoiceRegistry::new();
    registry.store_invoice(
        limits,
        BUSINESS,
        amount,
        CURRENCY,
        due,
        desc,
        InvoiceCategory::Services,
        &tags,
        NOW,
        0,
    )
}

fn store(limits: &ProtocolLimits, amount: i128, desc: &str, tags: Vec<Vec<u8>>) -> Result<InvoiceId, QuickLendXError> {
    store_full(limits, amount, NOW + 86_400, desc.as_bytes().to_vec(), tags)
}

fn tag_list(list: &[&str]) -> Vec<Vec<u8>> {
    list.iter().map(|t| t.as_bytes().to_vec()).collect()
}

// Amount bounds

#[test]
fn test_amount_zero_rejected() {
    let l = ProtocolLimits::default_limits();
    assert_eq!(store(&l, 0, "desc", Vec::new()), Err(QuickLendXError::InvalidAmount));
}

#[test]
fn test_amount_negative_rejected() {
    let l = ProtocolLimits::default_limits();
    assert_eq!(store(&l, -1, "desc", Vec::new()), Err(QuickLendXError::InvalidAmount));
}

#[test]
fn test_amount_below_min_rejected() {
    let l = limits(100, 365, 0);
    assert_eq!(store(&l, 99, "desc", Vec::new()), Err(QuickLendXError::InvalidAmount));
}

#[test]
fn test_amount_at_min_accepted() {
    let l = limits(100, 365, 0);
    assert!(store(&l, 100, "desc", Vec::new()).is_ok());
}

#[test]
fn test_amount_above_min_accepted() {
    let l = limits(10, 365, 0);
    assert!(store(&l, 1_000_000, "desc", Vec::new()).is_ok());
}

#[test]
fn test_amount_i128_max_accepted() {
    let l = limits(1, 365, 0);
    assert!(store(&l, i128::MAX, "desc", Vec::new()).is_ok());
}

// Due-date horizon

#[test]
fn test_due_date_in_past_rejected() {
    let l = ProtocolLimits::default_limits();
    assert_eq!(
        store_full(&l, 100, NOW - 1, b"desc".to_vec(), Vec::new()),
        Err(QuickLendXError::InvoiceDueDateInvalid)
    );
}

#[test]
fn test_due_date_at_now_rejected() {
    let l = ProtocolLimits::default_limits();
    assert_eq!(
        store_full(&l, 100, NOW, b"desc".to_vec(), Vec::new()),
        Err(QuickLendXError::InvoiceDueDateInvalid)
    );
}

#[test]
fn test_due_date_beyond_max_horizon_rejected() {
    let l = limits(10, 1, 0);
    assert_eq!(
        store_full(&l, 10, NOW + 2 * 86_400, b"desc".to_vec(), Vec::new()),
        Err(QuickLendXError::InvoiceDueDateInvalid)
    );
}

#[test]
fn test_due_date_within_max_horizon_accepted() {
    let l = limits(10, 365, 0);
    assert!(store_full(&l, 10, NOW + 86_400, b"desc".to_vec(), Vec::new()).is_ok());
}

#[test]
fn test_due_date_exactly_at_max_horizon_accepted() {
    let l = limits(10, 730, 0);
    assert!(store_full(&l, 10, NOW + 730 * 86_400, b"desc".to_vec(), Vec::new()).is_ok());
    assert_eq!(
        store_full(&l, 10, NOW + 730 * 86_400 + 1, b"desc".to_vec(), Vec::new()),
        Err(QuickLendXError::InvoiceDueDateInvalid)
    );
}

// Limits parameters

fn set(min: i128, days: u64, grace: u64) -> Result<(), QuickLendXError> {
    let mut l = ProtocolLimits::default_limits();
    l.set_protocol_limits(ADMIN, Some(ADMIN), min, days, grace)
}

#[test]
fn test_set_limits_min_amount_zero_rejected() {
    assert_eq!(set(0, 365, 0), Err(QuickLendXError::InvalidAmount));
}

#[test]
fn test_set_limits_min_amount_negative_rejected() {
    assert_eq!(set(-1, 365, 0), Err(QuickLendXError::InvalidAmount));
}

#[test]
fn test_set_limits_max_due_days_zero_rejected() {
    assert_eq!(set(10, 0, 0), Err(QuickLendXError::InvoiceDueDateInvalid));
}

#[test]
fn test_set_limits_max_due_days_731_rejected() {
    assert_eq!(set(10, 731, 0), Err(QuickLendXError::InvoiceDueDateInvalid));
}

#[test]
fn test_set_limits_max_due_days_730_accepted() {
    assert!(set(10, 730, 0).is_ok());
}

#[test]
fn test_set_limits_grace_period_above_max_rejected() {
    assert_eq!(set(10, 365, 2_592_001), Err(QuickLendXError::InvalidTimestamp));
}

#[test]
fn test_set_limits_grace_period_at_max_accepted() {
    assert!(set(10, 365, 2_592_000).is_ok());
}

#[test]
fn test_set_limits_grace_exceeds_horizon_rejected() {
    assert_eq!(set(10, 1, 172_801), Err(QuickLendXError::InvalidTimestamp));
}

#[test]
fn test_set_limits_non_admin_rejected() {
    let mut l = ProtocolLimits::default_limits();
    assert_eq!(
        l.set_protocol_limits(STRANGER, Some(ADMIN), 10, 365, 0),
        Err(QuickLendXError::NotAdmin)
    );
    assert_eq!(
        l.set_protocol_limits(STRANGER, None, 10, 365, 0),
        Err(QuickLendXError::NotAdmin)
    );
    assert_eq!(l, ProtocolLimits::default_limits());
}

#[test]
fn default_limits_values() {
    let l = ProtocolLimits::default_limits();
    assert_eq!(l.min_invoice_amount, 10);
    assert_eq!(l.max_due_date_days, 365);
    assert_eq!(l.grace_period_seconds, 604_800);
    assert_eq!(l.max_invoices_per_business, 100);
}

#[test]
fn set_limits_keeps_invoice_cap() {
    let mut l = ProtocolLimits::default_limits();
    l.update_limits_max_invoices(ADMIN, Some(ADMIN), 10, 365, 0, 3).unwrap();
    l.set_protocol_limits(ADMIN, Some(ADMIN), 50, 30, 86_400).unwrap();
    assert_eq!(
        l,
        ProtocolLimits {
            min_invoice_amount: 50,
            max_due_date_days: 30,
            grace_period_seconds: 86_400,
            max_invoices_per_business: 3,
        }
    );
}

// Description

#[test]
fn test_description_empty_rejected() {
    let l = ProtocolLimits::default_limits();
    assert_eq!(store(&l, 10, "", Vec::new()), Err(QuickLendXError::InvalidDescription));
}

#[test]
fn test_description_at_max_length_accepted() {
    let l = limits(10, 365, 0);
    assert!(store_full(
        &l,
        10,
        NOW + 86_400,
        make_str(MAX_DESCRIPTION_LENGTH as usize),
        Vec::new()
    )
    .is_ok());
    assert_eq!(
        store_full(
            &l,
            10,
            NOW + 86_400,
            make_str(MAX_DESCRIPTION_LENGTH as usize + 1),
            Vec::new()
        ),
        Err(QuickLendXError::InvalidDescription)
    );
}

// Tags

#[test]
fn test_tag_count_at_limit_accepted() {
    let l = limits(10, 365, 0);
    let tags = tag_list(&[
        "tag0", "tag1", "tag2", "tag3", "tag4", "tag5", "tag6", "tag7", "tag8", "tag9",
    ]);
    assert!(store(&l, 10, "desc", tags).is_ok());
}

#[test]
fn test_tag_count_above_limit_rejected() {
    let l = limits(10, 365, 0);
    let tags = tag_list(&[
        "tag0", "tag1", "tag2", "tag3", "tag4", "tag5", "tag6", "tag7", "tag8", "tag9", "tag10",
    ]);
    assert_eq!(store(&l, 10, "desc", tags), Err(QuickLendXError::TagLimitExceeded));
}

#[test]
fn test_tag_length_at_max_accepted() {
    let l = limits(10, 365, 0);
    assert!(store(&l, 10, "desc", vec![make_str(MAX_TAG_LENGTH as usize)]).is_ok());
}

#[test]
fn test_tag_length_above_max_rejected() {
    let l = limits(10, 365, 0);
    assert_eq!(
        store(&l, 10, "desc", vec![make_str(MAX_TAG_LENGTH as usize + 1)]),
        Err(QuickLendXError::InvalidTag)
    );
}

#[test]
fn test_tag_empty_rejected() {
    let l = limits(10, 365, 0);
    assert_eq!(store(&l, 10, "desc", tag_list(&[""])), Err(QuickLendXError::InvalidTag));
}

#[test]
fn test_duplicate_tags_rejected() {
    let l = limits(10, 365, 0);
    assert_eq!(
        store(&l, 10, "desc", tag_list(&["dup", "dup"])),
        Err(QuickLendXError::InvalidTag)
    );
}

#[test]
fn test_zero_tags_accepted() {
    let l = limits(10, 365, 0);
    assert!(store(&l, 10, "desc", Vec::new()).is_ok());
}

#[test]
fn padded_tag_measured_after_trimming() {
    let l = limits(10, 365, 0);
    let mut padded = vec![b' '; 5];
    padded.extend(make_str(MAX_TAG_LENGTH as usize));
    padded.extend(vec![b'\t'; 5]);
    assert!(store(&l, 10, "desc", vec![padded]).is_ok());
}

#[test]
fn normalize_tag_examples() {
    assert_eq!(normalize_tag(&b"  MiXeD Case\t".to_vec()), b"mixed case".to_vec());
    assert_eq!(normalize_tag(&b"\r\n".to_vec()), Vec::<u8>::new());
    assert_eq!(normalize_tag(&b"A-Z_09".to_vec()), b"a-z_09".to_vec());
}

#[test]
fn validated_tags_come_back_normalized() {
    let l = ProtocolLimits::default_limits();
    let normalized = validate_invoice_params(
        &l,
        100,
        NOW + 1,
        NOW,
        &b"desc".to_vec(),
        &tag_list(&[" Alpha", "BETA "]),
    )
    .unwrap();
    assert_eq!(normalized, tag_list(&["alpha", "beta"]));
}

// check_string_length

#[test]
fn test_check_string_length_at_limit_ok() {
    assert!(check_string_length(&make_str(50), 50).is_ok());
}

#[test]
fn test_check_string_length_above_limit_err() {
    assert_eq!(
        check_string_length(&make_str(51), 50),
        Err(QuickLendXError::InvalidDescription)
    );
}

#[test]
fn test_check_string_length_zero_limit_empty_ok() {
    assert!(check_string_length(&[], 0).is_ok());
}

// Limits applied on upload

#[test]
fn test_upload_invoice_enforces_min_amount() {
    let l = limits(500, 365, 0);
    assert_eq!(store(&l, 499, "desc", Vec::new()), Err(QuickLendXError::InvalidAmount));
}

#[test]
fn test_upload_invoice_enforces_due_date_horizon() {
    let l = limits(10, 1, 0);
    assert_eq!(
        store_full(&l, 10, NOW + 2 * 86_400, b"desc".to_vec(), Vec::new()),
        Err(QuickLendXError::InvoiceDueDateInvalid)
    );
}

#[test]
fn test_limits_update_takes_effect_immediately() {
    let mut l = limits(10, 365, 0);
    assert!(store(&l, 10, "desc", Vec::new()).is_ok());
    l.set_protocol_limits(ADMIN, Some(ADMIN), 1000, 365, 0).unwrap();
    assert_eq!(store(&l, 10, "desc", Vec::new()), Err(QuickLendXError::InvalidAmount));
}

#[test]
fn normalizing_twice_equals_once() {
    for raw in [&b"  Hello World \n"[..], b"\t\t", b"ABC", b"a b", b""] {
        let once = normalize_tag(&raw.to_vec());
        assert_eq!(normalize_tag(&once), once);
    }
}
