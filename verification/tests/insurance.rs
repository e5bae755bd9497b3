use quicklendx::invoice_id::InvoiceId;
use quicklendx::errors::QuickLendXError;
use quicklendx::investment::{
    Investment, InvestmentStatus, DEFAULT_INSURANCE_PREMIUM_BPS, MAX_COVERAGE_PERCENTAGE,
    MAX_TOTAL_COVERAGE_PERCENTAGE, MIN_COVERAGE_PERCENTAGE, MIN_PREMIUM_AMOUNT,
};
use quicklendx::investment_storage::InvestmentStorage;

const INVESTOR: u64 = 100;
const PROVIDER_A: u64 = 201;
const PROVIDER_B: u64 = 202;
const PROVIDER_C: u64 = 203;

fn investment(id: u64, amount: i128, status: InvestmentStatus) -> Investment {
    Investment {
        investment_id: id,
        invoice_id: InvoiceId { timestamp: 0, sequence: 0, counter: 1_000 + id as u32 },
        investor: INVESTOR,
        amount,
        funded_at: 0,
        status,
        insurance: Vec::new(),
    }
}

fn storage_with(id: u64, amount: i128, status: InvestmentStatus) -> InvestmentStorage {
    let mut storage = InvestmentStorage::new();
    storage.store_investment(investment(id, amount, status)).unwrap();
    storage
}

// 1. Bounds constants

#[test]
fn test_constants_have_expected_values() {
    assert_eq!(DEFAULT_INSURANCE_PREMIUM_BPS, 200);
    assert_eq!(MIN_COVERAGE_PERCENTAGE, 1);
    assert_eq!(MAX_COVERAGE_PERCENTAGE, 100);
    assert_eq!(MAX_TOTAL_COVERAGE_PERCENTAGE, 100);
    assert_eq!(MIN_PREMIUM_AMOUNT, 1);
}

// 2. calculate_premium

#[test]
fn test_calculate_premium_typical_cases() {
    assert_eq!(Investment::calculate_premium(10_000, 80), 160);
    assert_eq!(Investment::calculate_premium(10_000, 50), 100);
    assert_eq!(Investment::calculate_premium(10_000, 100), 200);
    assert_eq!(Investment::calculate_premium(10_000, 1), 2);
}

#[test]
fn test_calculate_premium_returns_zero_for_invalid_inputs() {
    assert_eq!(Investment::calculate_premium(0, 50), 0);
    assert_eq!(Investment::calculate_premium(-1, 50), 0);
    assert_eq!(Investment::calculate_premium(10_000, 0), 0);
    assert_eq!(Investment::calculate_premium(10_000, 101), 0);
    assert_eq!(Investment::calculate_premium(10_000, 200), 0);
    assert_eq!(Investment::calculate_premium(10_000, u32::MAX), 0);
}

#[test]
fn test_calculate_premium_minimum_floor() {
    assert_eq!(Investment::calculate_premium(500, 1), 1);
    assert_eq!(Investment::calculate_premium(100, 1), 1);
}

#[test]
fn test_calculate_premium_boundary_coverage_percentages() {
    let p = Investment::calculate_premium(10_000, MIN_COVERAGE_PERCENTAGE);
    assert!(p >= MIN_PREMIUM_AMOUNT);

    let p = Investment::calculate_premium(10_000, MAX_COVERAGE_PERCENTAGE);
    assert!(p >= MIN_PREMIUM_AMOUNT);

    assert_eq!(
        Investment::calculate_premium(10_000, MIN_COVERAGE_PERCENTAGE - 1),
        0
    );
    assert_eq!(
        Investment::calculate_premium(10_000, MAX_COVERAGE_PERCENTAGE + 1),
        0
    );
}

#[test]
fn test_calculate_premium_coverage_never_exceeds_amount() {
    let amount: i128 = 9_999;
    for pct in MIN_COVERAGE_PERCENTAGE..=MAX_COVERAGE_PERCENTAGE {
        let premium = Investment::calculate_premium(amount, pct);
        if premium > 0 {
            let coverage_amount = amount * pct as i128 / 100;
            assert!(
                coverage_amount <= amount,
                "coverage_amount must not exceed principal"
            );
        }
    }
}

#[test]
fn test_calculate_premium_overflow_safety() {
    let result = Investment::calculate_premium(i128::MAX, MAX_COVERAGE_PERCENTAGE);
    assert!(result >= 0);

    let large: i128 = 1_000_000_000_000_000_000;
    let p = Investment::calculate_premium(large, 80);
    assert_eq!(p, 16_000_000_000_000_000);
}

#[test]
fn test_calculate_premium_premium_does_not_exceed_coverage() {
    for pct in MIN_COVERAGE_PERCENTAGE..=MAX_COVERAGE_PERCENTAGE {
        let amount: i128 = 1_000_000;
        let premium = Investment::calculate_premium(amount, pct);
        if premium > 0 {
            let coverage_amount = amount * pct as i128 / 100;
            assert!(
                premium <= coverage_amount,
                "premium must not exceed coverage amount"
            );
        }
    }
}

#[test]
fn premium_of_saturated_coverage_is_exact() {
    // i128::MAX * 100 saturates, so the covered amount is i128::MAX / 100;
    // that times 200 saturates again, so the premium is i128::MAX / 10 000.
    let coverage = i128::MAX / 100;
    assert_eq!(
        Investment::calculate_premium(i128::MAX, 100),
        i128::MAX / 10_000
    );
    assert_eq!(Investment::calculate_coverage_amount(i128::MAX, 100), coverage);
}

#[test]
fn coverage_amount_rounds_down() {
    assert_eq!(Investment::calculate_coverage_amount(7_777, 73), 5_677);
    assert_eq!(Investment::calculate_coverage_amount(50, 1), 0);
    assert_eq!(Investment::calculate_coverage_amount(10_000, 100), 10_000);
}

// 4. State validation

#[test]
fn test_add_insurance_fails_when_investment_not_found() {
    let mut storage = InvestmentStorage::new();
    assert_eq!(
        storage.add_investment_insurance(0, PROVIDER_A, 50),
        Err(QuickLendXError::StorageKeyNotFound)
    );
}

#[test]
fn test_add_insurance_fails_on_withdrawn_investment() {
    let mut storage = storage_with(1, 10_000, InvestmentStatus::Withdrawn);
    assert_eq!(
        storage.add_investment_insurance(1, PROVIDER_A, 50),
        Err(QuickLendXError::InvalidStatus)
    );
}

#[test]
fn test_add_insurance_fails_on_completed_investment() {
    let mut storage = storage_with(1, 10_000, InvestmentStatus::Completed);
    assert_eq!(
        storage.add_investment_insurance(1, PROVIDER_A, 50),
        Err(QuickLendXError::InvalidStatus)
    );
}

#[test]
fn test_add_insurance_fails_on_defaulted_investment() {
    let mut storage = storage_with(1, 10_000, InvestmentStatus::Defaulted);
    assert_eq!(
        storage.add_investment_insurance(1, PROVIDER_A, 50),
        Err(QuickLendXError::InvalidStatus)
    );
}

#[test]
fn test_add_insurance_fails_on_refunded_investment() {
    let mut storage = storage_with(1, 10_000, InvestmentStatus::Refunded);
    assert_eq!(
        storage.add_investment_insurance(1, PROVIDER_A, 50),
        Err(QuickLendXError::InvalidStatus)
    );
}

// 5. Coverage percentage

#[test]
fn test_add_insurance_rejects_zero_coverage_percentage() {
    let mut storage = storage_with(1, 10_000, InvestmentStatus::Active);
    assert_eq!(
        storage.add_investment_insurance(1, PROVIDER_A, 0),
        Err(QuickLendXError::InvalidCoveragePercentage)
    );
}

#[test]
fn test_add_insurance_rejects_over_100_coverage_percentage() {
    let mut storage = storage_with(1, 10_000, InvestmentStatus::Active);
    assert_eq!(
        storage.add_investment_insurance(1, PROVIDER_A, 101),
        Err(QuickLendXError::InvalidCoveragePercentage)
    );
}

#[test]
fn test_add_insurance_accepts_min_coverage_percentage() {
    let mut storage = storage_with(1, 10_000, InvestmentStatus::Active);
    assert_eq!(
        storage.add_investment_insurance(1, PROVIDER_A, MIN_COVERAGE_PERCENTAGE),
        Ok(2)
    );
    let records = storage.query_investment_insurance(1).unwrap();
    assert_eq!(records.len(), 1);
    assert_eq!(records[0].coverage_percentage, MIN_COVERAGE_PERCENTAGE);
    assert_eq!(records[0].coverage_amount, 100);
}

#[test]
fn test_add_insurance_accepts_max_coverage_percentage() {
    let mut storage = storage_with(1, 10_000, InvestmentStatus::Active);
    assert_eq!(
        storage.add_investment_insurance(1, PROVIDER_A, MAX_COVERAGE_PERCENTAGE),
        Ok(200)
    );
    let records = storage.query_investment_insurance(1).unwrap();
    assert_eq!(records[0].coverage_amount, 10_000);
}

// 6. Investment amount

#[test]
fn test_add_insurance_rejects_negative_investment_amount() {
    let mut storage = storage_with(1, -1_000, InvestmentStatus::Active);
    assert_eq!(
        storage.add_investment_insurance(1, PROVIDER_A, 50),
        Err(QuickLendXError::InvalidAmount)
    );
}

#[test]
fn test_add_insurance_rejects_zero_investment_amount() {
    let mut storage = storage_with(1, 0, InvestmentStatus::Active);
    assert_eq!(
        storage.add_investment_insurance(1, PROVIDER_A, 50),
        Err(QuickLendXError::InvalidAmount)
    );
}

#[test]
fn test_add_insurance_rejects_tiny_amount_where_premium_rounds_to_zero() {
    let mut storage = storage_with(1, 50, InvestmentStatus::Active);
    assert_eq!(
        storage.add_investment_insurance(1, PROVIDER_A, 1),
        Err(QuickLendXError::InvalidAmount)
    );
    assert_eq!(storage.query_investment_insurance(1).unwrap().len(), 0);
}

// 7. Cumulative cap

#[test]
fn test_add_insurance_allows_multiple_active_coverages_within_cumulative_cap() {
    let mut storage = storage_with(1, 10_000, InvestmentStatus::Active);
    storage.add_investment_insurance(1, PROVIDER_A, 60).unwrap();
    storage.add_investment_insurance(1, PROVIDER_B, 40).unwrap();

    let records = storage.query_investment_insurance(1).unwrap();
    assert_eq!(records.len(), 2);
    assert!(records[0].active);
    assert!(records[1].active);
    assert_eq!(records[0].coverage_percentage, 60);
    assert_eq!(records[1].coverage_percentage, 40);
}

#[test]
fn test_add_insurance_rejects_when_cumulative_coverage_exceeds_cap() {
    let mut storage = storage_with(1, 10_000, InvestmentStatus::Active);
    storage.add_investment_insurance(1, PROVIDER_A, 60).unwrap();
    assert_eq!(
        storage.add_investment_insurance(1, PROVIDER_B, 41),
        Err(QuickLendXError::OperationNotAllowed)
    );

    let records = storage.query_investment_insurance(1).unwrap();
    assert_eq!(records.len(), 1);
    assert_eq!(records[0].coverage_percentage, 60);
}

#[test]
fn test_add_insurance_accepts_exact_cumulative_cap_across_multiple_policies() {
    let mut storage = storage_with(1, 10_000, InvestmentStatus::Active);
    storage.add_investment_insurance(1, PROVIDER_A, 30).unwrap();
    storage.add_investment_insurance(1, PROVIDER_B, 30).unwrap();
    storage.add_investment_insurance(1, PROVIDER_C, 40).unwrap();

    let records = storage.query_investment_insurance(1).unwrap();
    assert_eq!(records.len(), 3);
    assert_eq!(records[0].coverage_percentage, 30);
    assert_eq!(records[1].coverage_percentage, 30);
    assert_eq!(records[2].coverage_percentage, 40);
}

#[test]
fn test_add_insurance_allowed_after_previous_is_deactivated() {
    let mut inv = investment(1, 10_000, InvestmentStatus::Active);
    inv.add_insurance(PROVIDER_A, 60, Investment::calculate_premium(10_000, 60))
        .unwrap();
    inv.process_insurance_claim().unwrap();

    inv.add_insurance(PROVIDER_B, 60, Investment::calculate_premium(10_000, 60))
        .unwrap();
    assert_eq!(inv.insurance.len(), 2);
    assert!(!inv.insurance[0].active);
    assert!(inv.insurance[1].active);
}

// 8. Premium correctness

#[test]
fn test_premium_stored_in_coverage_record() {
    let mut storage = storage_with(1, 10_000, InvestmentStatus::Active);
    storage.add_investment_insurance(1, PROVIDER_A, 80).unwrap();

    let records = storage.query_investment_insurance(1).unwrap();
    assert_eq!(records[0].coverage_amount, 8_000);
    assert_eq!(records[0].premium_amount, 160);
    assert_eq!(records[0].provider, PROVIDER_A);
}

#[test]
fn test_premium_minimum_floor_applied() {
    let mut storage = storage_with(1, 100, InvestmentStatus::Active);
    storage.add_investment_insurance(1, PROVIDER_A, 1).unwrap();

    let records = storage.query_investment_insurance(1).unwrap();
    assert_eq!(records[0].coverage_amount, 1);
    assert_eq!(records[0].premium_amount, 1);
}

// 9. Over-coverage

#[test]
fn test_coverage_amount_never_exceeds_investment_amount() {
    let amount: i128 = 7_777;
    let mut storage = storage_with(1, amount, InvestmentStatus::Active);
    storage
        .add_investment_insurance(1, PROVIDER_A, MAX_COVERAGE_PERCENTAGE)
        .unwrap();

    let records = storage.query_investment_insurance(1).unwrap();
    assert!(records[0].coverage_amount <= amount);
    assert_eq!(records[0].coverage_amount, amount);
}

#[test]
fn test_over_100_percent_rejected_with_specific_error() {
    let mut storage = storage_with(1, 10_000, InvestmentStatus::Active);
    for &pct in &[101u32, 150, 200, 1_000, u32::MAX] {
        assert_eq!(
            storage.add_investment_insurance(1, PROVIDER_A, pct),
            Err(QuickLendXError::InvalidCoveragePercentage)
        );
    }
}

// 10. Queries

#[test]
fn test_query_returns_empty_for_new_investment() {
    let storage = storage_with(1, 10_000, InvestmentStatus::Active);
    assert_eq!(storage.query_investment_insurance(1).unwrap().len(), 0);
}

/// Deactivates the insurance entry at `idx` of stored investment `id`.
fn set_insurance_inactive(storage: &mut InvestmentStorage, id: u64, idx: usize) {
    let mut investment = storage.get_investment(id).expect("investment must exist").clone();
    investment.insurance[idx].active = false;
    storage.update_investment(investment).unwrap();
}

#[test]
fn test_query_returns_all_historical_entries() {
    let mut storage = storage_with(61, 10_000, InvestmentStatus::Active);
    storage.add_investment_insurance(61, PROVIDER_A, 40).unwrap();
    set_insurance_inactive(&mut storage, 61, 0);
    storage.add_investment_insurance(61, PROVIDER_B, 60).unwrap();
    let records = storage.query_investment_insurance(61).unwrap();
    assert_eq!(records.len(), 2);
    assert_eq!(records[0].provider, PROVIDER_A);
    assert!(!records[0].active);
    assert_eq!(records[1].provider, PROVIDER_B);
    assert!(records[1].active);
}

#[test]
fn update_investment_keeps_the_active_index() {
    let mut storage = storage_with(5, 10_000, InvestmentStatus::Active);
    storage.store_investment(investment(6, 2_000, InvestmentStatus::Completed)).unwrap();
    assert_eq!(storage.get_active_investment_ids(), vec![5]);
    storage.update_investment(investment(5, 10_000, InvestmentStatus::Defaulted)).unwrap();
    assert!(storage.get_active_investment_ids().is_empty());
    storage.update_investment(investment(6, 2_500, InvestmentStatus::Active)).unwrap();
    assert_eq!(storage.get_active_investment_ids(), vec![6]);
    assert_eq!(storage.get_investment(6).unwrap().amount, 2_500);
    assert!(storage.validate_no_orphan_investments());
    assert_eq!(
        storage.update_investment(investment(7, 1, InvestmentStatus::Active)),
        Err(QuickLendXError::StorageKeyNotFound)
    );
}

#[test]
fn test_query_nonexistent_investment_returns_error() {
    let storage = storage_with(1, 10_000, InvestmentStatus::Active);
    assert_eq!(
        storage.query_investment_insurance(u64::MAX - 1).err(),
        Some(QuickLendXError::StorageKeyNotFound)
    );
}

// 11. Claims

#[test]
fn test_process_insurance_claim_deactivates_and_returns_amount() {
    let mut inv = investment(1, 10_000, InvestmentStatus::Active);
    let premium = Investment::calculate_premium(10_000, 80);
    inv.add_insurance(PROVIDER_A, 80, premium).expect("insurance should be added");
    assert!(inv.has_active_insurance());

    let (claim_provider, claim_amount) = inv.process_insurance_claim().expect("claim must succeed");
    assert_eq!(claim_provider, PROVIDER_A);
    assert_eq!(claim_amount, 8_000);
    assert!(!inv.has_active_insurance());
}

#[test]
fn test_process_insurance_claim_returns_none_when_no_active_coverage() {
    let mut inv = investment(3, 5_000, InvestmentStatus::Active);
    assert!(inv.process_insurance_claim().is_none());
}

#[test]
fn test_second_claim_returns_none_after_first() {
    let mut inv = investment(5, 1_000, InvestmentStatus::Active);
    let premium = Investment::calculate_premium(1_000, 100);
    inv.add_insurance(PROVIDER_A, 100, premium).unwrap();
    inv.process_insurance_claim().unwrap();
    assert!(inv.process_insurance_claim().is_none());
}

#[test]
fn test_process_all_insurance_claims_deactivates_all_active_coverages() {
    let mut inv = investment(17, 10_000, InvestmentStatus::Active);
    inv.add_insurance(PROVIDER_A, 40, Investment::calculate_premium(10_000, 40))
        .unwrap();
    inv.add_insurance(PROVIDER_B, 60, Investment::calculate_premium(10_000, 60))
        .unwrap();

    let claims = inv.process_all_insurance_claims();
    assert_eq!(claims.len(), 2);
    assert_eq!(claims[0], (PROVIDER_A, 4_000));
    assert_eq!(claims[1], (PROVIDER_B, 6_000));
    assert!(!inv.has_active_insurance());
    assert!(!inv.insurance[0].active);
    assert!(!inv.insurance[1].active);
}

// 12. Isolation

#[test]
fn test_insurance_on_one_investment_does_not_affect_another() {
    let mut storage = InvestmentStorage::new();
    storage.store_investment(investment(1, 10_000, InvestmentStatus::Active)).unwrap();
    storage.store_investment(investment(2, 20_000, InvestmentStatus::Active)).unwrap();

    storage.add_investment_insurance(1, PROVIDER_A, 50).unwrap();

    assert_eq!(storage.query_investment_insurance(2).unwrap().len(), 0);
    let records_a = storage.query_investment_insurance(1).unwrap();
    assert_eq!(records_a.len(), 1);
    assert!(records_a[0].active);
}

// 13. add_insurance on a single investment

#[test]
fn test_add_insurance_unit_coverage_percentage_bounds() {
    let mut inv = investment(7, 1_000, InvestmentStatus::Active);
    assert_eq!(
        inv.add_insurance(PROVIDER_A, 0, 10),
        Err(QuickLendXError::InvalidCoveragePercentage)
    );
    assert_eq!(
        inv.add_insurance(PROVIDER_A, 101, 10),
        Err(QuickLendXError::InvalidCoveragePercentage)
    );
    let premium = Investment::calculate_premium(1_000, MAX_COVERAGE_PERCENTAGE);
    assert!(inv
        .add_insurance(PROVIDER_A, MAX_COVERAGE_PERCENTAGE, premium)
        .is_ok());
}

#[test]
fn test_add_insurance_unit_rejects_non_positive_investment_amount() {
    for &bad_amount in &[0i128, -1, -1_000_000] {
        let mut inv = investment(9, bad_amount, InvestmentStatus::Active);
        assert_eq!(
            inv.add_insurance(PROVIDER_A, 50, 1),
            Err(QuickLendXError::InvalidAmount)
        );
    }
}

#[test]
fn test_add_insurance_unit_rejects_below_minimum_premium() {
    let mut inv = investment(11, 10_000, InvestmentStatus::Active);
    assert_eq!(
        inv.add_insurance(PROVIDER_A, 50, 0),
        Err(QuickLendXError::InvalidAmount)
    );
    assert_eq!(
        inv.add_insurance(PROVIDER_A, 50, -1),
        Err(QuickLendXError::InvalidAmount)
    );
}

#[test]
fn test_add_insurance_unit_rejects_premium_exceeding_coverage_amount() {
    let mut inv = investment(13, 1_000, InvestmentStatus::Active);
    assert_eq!(
        inv.add_insurance(PROVIDER_A, 10, 101),
        Err(QuickLendXError::InvalidAmount)
    );
    assert_eq!(inv.add_insurance(PROVIDER_A, 10, 100), Ok(100));
}

#[test]
fn test_add_insurance_unit_enforces_cumulative_cap() {
    let mut inv = investment(15, 10_000, InvestmentStatus::Active);
    inv.add_insurance(PROVIDER_A, 50, Investment::calculate_premium(10_000, 50))
        .unwrap();
    inv.add_insurance(PROVIDER_B, 30, Investment::calculate_premium(10_000, 30))
        .unwrap();
    assert_eq!(inv.total_active_coverage_percentage(), 80);
    assert_eq!(
        inv.add_insurance(PROVIDER_C, 21, Investment::calculate_premium(10_000, 21)),
        Err(QuickLendXError::OperationNotAllowed)
    );
}

#[test]
fn add_insurance_rejects_inactive_investment_before_percentage() {
    let mut inv = investment(16, 10_000, InvestmentStatus::Completed);
    assert_eq!(
        inv.add_insurance(PROVIDER_A, 0, 10),
        Err(QuickLendXError::InvalidStatus)
    );
}

// 14. Payouts

#[test]
fn test_total_claim_payouts_never_exceed_investment_principal() {
    let amount: i128 = 10_000;
    let mut inv = investment(20, amount, InvestmentStatus::Active);
    inv.add_insurance(PROVIDER_A, 60, Investment::calculate_premium(amount, 60))
        .unwrap();
    inv.add_insurance(PROVIDER_B, 40, Investment::calculate_premium(amount, 40))
        .unwrap();

    let claims = inv.process_all_insurance_claims();
    let total_payout: i128 = claims.iter().map(|(_, a)| a).sum();
    assert!(total_payout <= amount);
    assert_eq!(total_payout, amount);
}

#[test]
fn test_claim_payout_matches_coverage_formula() {
    let amount: i128 = 7_777;
    let mut inv = investment(22, amount, InvestmentStatus::Active);
    let pct = 73u32;
    let expected_coverage = amount * pct as i128 / 100;
    let premium = Investment::calculate_premium(amount, pct);
    inv.add_insurance(PROVIDER_A, pct, premium).unwrap();

    let (_, claim_amount) = inv.process_insurance_claim().unwrap();
    assert_eq!(claim_amount, expected_coverage);
}

// 15. Double claims

#[test]
fn test_process_all_claims_twice_second_call_returns_empty() {
    let mut inv = investment(24, 10_000, InvestmentStatus::Active);
    inv.add_insurance(PROVIDER_A, 50, Investment::calculate_premium(10_000, 50))
        .unwrap();
    inv.add_insurance(PROVIDER_B, 50, Investment::calculate_premium(10_000, 50))
        .unwrap();

    assert_eq!(inv.process_all_insurance_claims().len(), 2);
    assert_eq!(inv.process_all_insurance_claims().len(), 0);
}

#[test]
fn test_process_single_claim_then_all_returns_empty() {
    let mut inv = investment(26, 10_000, InvestmentStatus::Active);
    inv.add_insurance(PROVIDER_A, 40, Investment::calculate_premium(10_000, 40))
        .unwrap();
    inv.add_insurance(PROVIDER_B, 60, Investment::calculate_premium(10_000, 60))
        .unwrap();

    let first = inv.process_insurance_claim().unwrap();
    assert_eq!(first.1, 4_000);

    let rest = inv.process_all_insurance_claims();
    assert_eq!(rest.len(), 1);
    assert_eq!(rest[0].1, 6_000);

    assert!(inv.process_insurance_claim().is_none());
    assert_eq!(inv.process_all_insurance_claims().len(), 0);
}

// 16. Active coverage total

#[test]
fn test_total_active_coverage_excludes_inactive_policies() {
    let mut inv = investment(28, 10_000, InvestmentStatus::Active);
    inv.add_insurance(PROVIDER_A, 60, Investment::calculate_premium(10_000, 60))
        .unwrap();
    inv.add_insurance(PROVIDER_B, 40, Investment::calculate_premium(10_000, 40))
        .unwrap();
    assert_eq!(inv.total_active_coverage_percentage(), 100);

    inv.insurance[0].active = false;
    assert_eq!(inv.total_active_coverage_percentage(), 40);
}

#[test]
fn test_total_active_coverage_zero_after_all_claims() {
    let mut inv = investment(30, 5_000, InvestmentStatus::Active);
    inv.add_insurance(PROVIDER_A, 100, Investment::calculate_premium(5_000, 100))
        .unwrap();
    assert_eq!(inv.total_active_coverage_percentage(), 100);

    inv.process_all_insurance_claims();
    assert_eq!(inv.total_active_coverage_percentage(), 0);
    assert!(!inv.has_active_insurance());
}

// 17. Stacked policies

#[test]
fn test_stacked_policies_exactly_100pct_accepted() {
    let mut inv = investment(32, 10_000, InvestmentStatus::Active);
    inv.add_insurance(PROVIDER_A, 33, Investment::calculate_premium(10_000, 33))
        .unwrap();
    inv.add_insurance(PROVIDER_B, 33, Investment::calculate_premium(10_000, 33))
        .unwrap();
    inv.add_insurance(PROVIDER_C, 34, Investment::calculate_premium(10_000, 34))
        .unwrap();
    assert_eq!(inv.total_active_coverage_percentage(), 100);
    assert_eq!(inv.insurance.len(), 3);
}

#[test]
fn test_stacked_policies_101pct_rejected() {
    let mut inv = investment(34, 10_000, InvestmentStatus::Active);
    inv.add_insurance(PROVIDER_A, 51, Investment::calculate_premium(10_000, 51))
        .unwrap();
    assert_eq!(
        inv.add_insurance(PROVIDER_B, 50, Investment::calculate_premium(10_000, 50)),
        Err(QuickLendXError::OperationNotAllowed)
    );
    assert_eq!(inv.total_active_coverage_percentage(), 51);
}
