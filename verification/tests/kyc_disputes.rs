use quicklendx::invoice_id::InvoiceId;
use quicklendx::dispute::DisputeStatus;
use quicklendx::errors::QuickLendXError;
use quicklendx::invoice::InvoiceCategory;
use quicklendx::kyc::{VerificationRegistry, VerificationStatus};
use quicklendx::marketplace::Marketplace;
use quicklendx::protocol_limits::{
    MAX_DISPUTE_EVIDENCE_LENGTH, MAX_DISPUTE_REASON_LENGTH, MAX_KYC_DATA_LENGTH,
    MAX_REJECTION_REASON_LENGTH,
};

const ADMIN: u64 = 2;
const STRANGER: u64 = 3;
const BUSINESS: u64 = 10;
const INVESTOR: u64 = 11;
const CONTRACT: u64 = 1;
const CURRENCY: u64 = 20;
const NOW: u64 = 1_000_000;

fn make_str(n: usize) -> Vec<u8> {
    vec![b'a'; n]
}

fn text(s: &str) -> Vec<u8> {
    s.as_bytes().to_vec()
}

/// A marketplace holding one uploaded invoice of the verified `BUSINESS`
/// in an accepted currency.
fn funded_invoice() -> (Marketplace, InvoiceId) {
    let mut market = Marketplace::new(CONTRACT);
    market.initialize_admin(ADMIN).unwrap();
    market.submit_kyc_application(BUSINESS, text("kyc"), NOW).unwrap();
    market.verify_business(ADMIN, BUSINESS).unwrap();
    market.add_currency(ADMIN, CURRENCY).unwrap();
    let id = market
        .upload_invoice(
            BUSINESS,
            10,
            CURRENCY,
            NOW + 86_400,
            text("desc"),
            InvoiceCategory::Services,
            &Vec::new(),
            NOW,
            0,
        )
        .unwrap();
    (market, id)
}

// KYC data limits

#[test]
fn test_kyc_data_at_max_accepted() {
    let mut kyc = VerificationRegistry::new();
    let data = make_str(MAX_KYC_DATA_LENGTH as usize);
    assert!(kyc.submit_kyc_application(BUSINESS, data, NOW).is_ok());
}

#[test]
fn test_kyc_data_above_max_rejected() {
    let mut kyc = VerificationRegistry::new();
    let data = make_str(MAX_KYC_DATA_LENGTH as usize + 1);
    assert!(kyc.submit_kyc_application(BUSINESS, data, NOW).is_err());
}

#[test]
fn test_kyc_data_empty_accepted() {
    let mut kyc = VerificationRegistry::new();
    assert!(kyc.submit_kyc_application(BUSINESS, Vec::new(), NOW).is_ok());
}

// Rejection reason limits

#[test]
fn test_rejection_reason_at_max_accepted() {
    let mut kyc = VerificationRegistry::new();
    kyc.submit_kyc_application(BUSINESS, text("kyc"), NOW).unwrap();
    let reason = make_str(MAX_REJECTION_REASON_LENGTH as usize);
    assert!(kyc.reject_business(ADMIN, Some(ADMIN), BUSINESS, reason).is_ok());
}

#[test]
fn test_rejection_reason_above_max_rejected() {
    let mut kyc = VerificationRegistry::new();
    kyc.submit_kyc_application(BUSINESS, text("kyc"), NOW).unwrap();
    let reason = make_str(MAX_REJECTION_REASON_LENGTH as usize + 1);
    assert!(kyc.reject_business(ADMIN, Some(ADMIN), BUSINESS, reason).is_err());
}

// Dispute text limits

#[test]
fn test_dispute_reason_at_max_accepted() {
    let (mut market, id) = funded_invoice();
    let reason = make_str(MAX_DISPUTE_REASON_LENGTH as usize);
    assert!(market.create_dispute(id, BUSINESS, reason, text("evidence"), NOW).is_ok());
}

#[test]
fn test_dispute_reason_above_max_rejected() {
    let (mut market, id) = funded_invoice();
    let reason = make_str(MAX_DISPUTE_REASON_LENGTH as usize + 1);
    assert!(market.create_dispute(id, BUSINESS, reason, text("evidence"), NOW).is_err());
}

#[test]
fn test_dispute_evidence_at_max_accepted() {
    let (mut market, id) = funded_invoice();
    let evidence = make_str(MAX_DISPUTE_EVIDENCE_LENGTH as usize);
    assert!(market.create_dispute(id, BUSINESS, text("reason"), evidence, NOW).is_ok());
}

#[test]
fn test_dispute_evidence_above_max_rejected() {
    let (mut market, id) = funded_invoice();
    let evidence = make_str(MAX_DISPUTE_EVIDENCE_LENGTH as usize + 1);
    assert!(market.create_dispute(id, BUSINESS, text("reason"), evidence, NOW).is_err());
}

#[test]
fn test_dispute_reason_empty_rejected() {
    let (mut market, id) = funded_invoice();
    let result = market.create_dispute(id, BUSINESS, text(""), text("evidence"), NOW);
    assert!(result.is_err());
}

#[test]
fn test_dispute_evidence_empty_rejected() {
    let (mut market, id) = funded_invoice();
    let result = market.create_dispute(id, BUSINESS, text("reason"), text(""), NOW);
    assert!(result.is_err());
}

// Further cases

#[test]
fn kyc_application_lifecycle() {
    let mut kyc = VerificationRegistry::new();
    assert_eq!(
        kyc.verify_business(ADMIN, Some(ADMIN), BUSINESS),
        Err(QuickLendXError::StorageKeyNotFound)
    );
    kyc.submit_kyc_application(BUSINESS, text("kyc"), NOW).unwrap();
    assert_eq!(
        kyc.submit_kyc_application(BUSINESS, text("again"), NOW),
        Err(QuickLendXError::OperationNotAllowed)
    );
    assert!(!kyc.is_business_verified(BUSINESS));
    assert_eq!(kyc.verify_business(STRANGER, Some(ADMIN), BUSINESS), Err(QuickLendXError::NotAdmin));
    assert_eq!(kyc.verify_business(ADMIN, None, BUSINESS), Err(QuickLendXError::NotAdmin));
    kyc.verify_business(ADMIN, Some(ADMIN), BUSINESS).unwrap();
    assert!(kyc.is_business_verified(BUSINESS));
    assert_eq!(
        kyc.verify_business(ADMIN, Some(ADMIN), BUSINESS),
        Err(QuickLendXError::InvalidStatus)
    );
    assert_eq!(
        kyc.reject_business(ADMIN, Some(ADMIN), BUSINESS, text("late")),
        Err(QuickLendXError::InvalidStatus)
    );
    assert_eq!(
        kyc.submit_kyc_application(BUSINESS, text("again"), NOW),
        Err(QuickLendXError::OperationNotAllowed)
    );
    assert!(kyc.is_business_verified(BUSINESS));
}

#[test]
fn rejected_business_may_apply_again() {
    let mut kyc = VerificationRegistry::new();
    kyc.submit_kyc_application(BUSINESS, text("kyc"), NOW).unwrap();
    kyc.reject_business(ADMIN, Some(ADMIN), BUSINESS, text("blurry scan")).unwrap();
    let app = kyc.get_verification(BUSINESS).unwrap();
    assert_eq!(app.status, VerificationStatus::Rejected);
    assert_eq!(app.rejection_reason, Some(text("blurry scan")));
    kyc.submit_kyc_application(BUSINESS, text("better scan"), NOW + 5).unwrap();
    let app = kyc.get_verification(BUSINESS).unwrap();
    assert_eq!(app.status, VerificationStatus::Pending);
    assert_eq!(app.kyc_data, text("better scan"));
    assert_eq!(app.submitted_at, NOW + 5);
    assert_eq!(app.rejection_reason, None);
    assert!(kyc.get_verification(INVESTOR).is_none());
}

#[test]
fn dispute_rules() {
    let (mut market, id) = funded_invoice();
    assert_eq!(
        market.create_dispute(InvoiceId { counter: id.counter + 1, ..id }, BUSINESS, text("reason"), text("evidence"), NOW),
        Err(QuickLendXError::InvoiceNotFound)
    );
    assert_eq!(
        market.create_dispute(id, STRANGER, text("reason"), text("evidence"), NOW),
        Err(QuickLendXError::Unauthorized)
    );
    assert!(market.get_dispute(id).is_none());
    market.create_dispute(id, BUSINESS, text("reason"), text("evidence"), NOW).unwrap();
    let d = market.get_dispute(id).unwrap();
    assert_eq!(d.created_by, BUSINESS);
    assert_eq!(d.reason, text("reason"));
    assert_eq!(d.evidence, text("evidence"));
    assert_eq!(d.created_at, NOW);
    assert_eq!(d.status, DisputeStatus::Disputed);
    assert_eq!(
        market.create_dispute(id, BUSINESS, text("again"), text("more"), NOW),
        Err(QuickLendXError::OperationNotAllowed)
    );
}

#[test]
fn investor_of_a_funded_invoice_may_dispute_it() {
    let (mut market, id) = funded_invoice();
    assert_eq!(
        market.create_dispute(id, INVESTOR, text("reason"), text("evidence"), NOW),
        Err(QuickLendXError::Unauthorized)
    );
    market.verify_invoice(id).unwrap();
    market.submit_investor_kyc(INVESTOR, text("kyc"), NOW).unwrap();
    market.verify_investor(ADMIN, INVESTOR, 1_000).unwrap();
    let bid = market.place_bid(INVESTOR, id, 9, 10, NOW).unwrap();
    market.accept_bid_and_fund(id, bid, NOW, 1_000, 1_000).unwrap();
    market.create_dispute(id, INVESTOR, text("late"), text("ledger"), NOW + 1).unwrap();
    let d = market.get_dispute(id).unwrap();
    assert_eq!(d.created_by, INVESTOR);
    assert_eq!(d.created_at, NOW + 1);
    assert_eq!(
        market.create_dispute(id, BUSINESS, text("reason"), text("evidence"), NOW),
        Err(QuickLendXError::OperationNotAllowed)
    );
}

// Verification and currencies gate uploads and bids

#[test]
fn uploads_need_a_verified_business_and_an_accepted_currency() {
    let mut market = Marketplace::new(CONTRACT);
    market.initialize_admin(ADMIN).unwrap();
    let upload = |m: &mut Marketplace| {
        m.upload_invoice(BUSINESS, 1_000, CURRENCY, NOW + 86_400, text("desc"), InvoiceCategory::Services, &Vec::new(), NOW, 0)
    };
    assert_eq!(upload(&mut market), Err(QuickLendXError::BusinessNotVerified));
    market.submit_kyc_application(BUSINESS, text("kyc"), NOW).unwrap();
    assert_eq!(upload(&mut market), Err(QuickLendXError::BusinessNotVerified));
    market.verify_business(ADMIN, BUSINESS).unwrap();
    // While no currency has been accepted, any currency may be used.
    assert_eq!(upload(&mut market), Ok(InvoiceId { timestamp: NOW, sequence: 0, counter: 0 }));
    assert_eq!(market.add_currency(STRANGER, 98), Err(QuickLendXError::NotAdmin));
    market.add_currency(ADMIN, 98).unwrap();
    assert_eq!(upload(&mut market), Err(QuickLendXError::InvalidCurrency));
    assert!(!market.is_currency_accepted(CURRENCY));
    market.add_currency(ADMIN, CURRENCY).unwrap();
    market.add_currency(ADMIN, CURRENCY).unwrap();
    assert!(market.is_currency_accepted(CURRENCY));
    assert_eq!(upload(&mut market), Ok(InvoiceId { timestamp: NOW, sequence: 0, counter: 1 }));
    // Storing bypasses both gates.
    assert_eq!(
        market.store_invoice(STRANGER, 1_000, 99, NOW + 86_400, text("desc"), InvoiceCategory::Services, &Vec::new(), NOW, 0),
        Ok(InvoiceId { timestamp: NOW, sequence: 0, counter: 2 })
    );
}

#[test]
fn bids_need_a_verified_investor_within_its_limit() {
    let (mut market, id) = funded_invoice();
    market.verify_invoice(id).unwrap();
    assert_eq!(market.place_bid(INVESTOR, id, 9, 10, NOW), Err(QuickLendXError::InvestorNotVerified));
    market.submit_investor_kyc(INVESTOR, text("kyc"), NOW).unwrap();
    assert_eq!(market.place_bid(INVESTOR, id, 9, 10, NOW), Err(QuickLendXError::InvestorNotVerified));
    assert_eq!(
        market.verify_investor(ADMIN, INVESTOR, 0),
        Err(QuickLendXError::InvalidAmount)
    );
    assert_eq!(
        market.verify_investor(STRANGER, INVESTOR, 8),
        Err(QuickLendXError::NotAdmin)
    );
    market.verify_investor(ADMIN, INVESTOR, 8).unwrap();
    assert_eq!(market.place_bid(INVESTOR, id, 9, 10, NOW), Err(QuickLendXError::InvestmentLimitExceeded));
    assert_eq!(market.place_bid(INVESTOR, id, 8, 10, NOW), Ok(0));
}

#[test]
fn investor_limit_is_the_one_granted() {
    let mut kyc = VerificationRegistry::new();
    assert_eq!(kyc.investment_limit_of(INVESTOR), 0);
    kyc.submit_kyc_application(INVESTOR, text("kyc"), NOW).unwrap();
    assert_eq!(kyc.investment_limit_of(INVESTOR), 0);
    kyc.verify_investor(ADMIN, Some(ADMIN), INVESTOR, 50_000).unwrap();
    assert_eq!(kyc.investment_limit_of(INVESTOR), 50_000);
    assert_eq!(kyc.get_verification(INVESTOR).unwrap().investment_limit, 50_000);
    assert_eq!(kyc.get_verification(INVESTOR).unwrap().applicant, INVESTOR);
}
