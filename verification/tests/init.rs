use quicklendx::errors::QuickLendXError;
use quicklendx::init::{validate_protocol_config, InitializationParams, ProtocolInitializer, PROTOCOL_VERSION};

const CONTRACT: u64 = 1;
const NOW: u64 = 500;

fn valid_params(seed: u64) -> InitializationParams {
    InitializationParams {
        admin: 1_000 + seed,
        treasury: 2_000 + seed,
        fee_bps: 200,
        min_invoice_amount: 1_000_000,
        max_due_date_days: 365,
        grace_period_seconds: 604_800,
        initial_currencies: Vec::new(),
    }
}

fn setup_initialized() -> (ProtocolInitializer, InitializationParams) {
    let mut pi = ProtocolInitializer::new();
    let params = valid_params(0);
    pi.initialize(&params, CONTRACT, NOW).unwrap();
    (pi, params)
}

fn init_with(params: &InitializationParams) -> Result<(), QuickLendXError> {
    ProtocolInitializer::new().initialize(params, CONTRACT, NOW)
}

// Successful initialization

#[test]
fn test_successful_initialization_with_valid_params() {
    let mut pi = ProtocolInitializer::new();
    assert!(pi.initialize(&valid_params(0), CONTRACT, NOW).is_ok());
    assert!(pi.is_initialized());
}

#[test]
fn test_initialization_stores_admin_correctly() {
    let (pi, params) = setup_initialized();
    assert_eq!(pi.get_current_admin(), Some(params.admin));
}

#[test]
fn test_initialization_stores_treasury_correctly() {
    let (pi, params) = setup_initialized();
    assert_eq!(pi.get_treasury(), Some(params.treasury));
}

#[test]
fn test_initialization_stores_fee_bps_correctly() {
    let (pi, params) = setup_initialized();
    assert_eq!(pi.get_fee_bps(), params.fee_bps);
}

#[test]
fn test_initialization_stores_protocol_config_correctly() {
    let (pi, params) = setup_initialized();
    let config = pi.get_protocol_config().unwrap();
    assert_eq!(config.min_invoice_amount, params.min_invoice_amount);
    assert_eq!(config.max_due_date_days, params.max_due_date_days);
    assert_eq!(config.grace_period_seconds, params.grace_period_seconds);
    assert_eq!(config.updated_by, params.admin);
    assert_eq!(config.updated_at, NOW);
}

#[test]
fn test_initialization_with_currencies() {
    let mut pi = ProtocolInitializer::new();
    let mut params = valid_params(0);
    params.initial_currencies = vec![7, 8];
    pi.initialize(&params, CONTRACT, NOW).unwrap();
    assert!(pi.is_initialized());
}

// Re-initialization

#[test]
fn test_double_initialization_fails() {
    let (mut pi, _) = setup_initialized();
    assert_eq!(
        pi.initialize(&valid_params(1), CONTRACT, NOW),
        Err(QuickLendXError::OperationNotAllowed)
    );
}

#[test]
fn test_state_preservation_after_failed_reinit() {
    let (mut pi, original) = setup_initialized();
    let _ = pi.initialize(&valid_params(1), CONTRACT, NOW);
    assert_eq!(pi.get_current_admin(), Some(original.admin));
    assert_eq!(pi.get_treasury(), Some(original.treasury));
    assert_eq!(pi.get_fee_bps(), original.fee_bps);
}

#[test]
fn test_init_idempotent_same_params() {
    let (mut pi, params) = setup_initialized();
    assert!(pi.initialize(&params, CONTRACT, NOW + 1).is_ok());
    assert_eq!(pi.get_protocol_config().unwrap().updated_at, NOW);
}

#[test]
fn test_multiple_failed_reinits_preserve_state() {
    let (mut pi, p) = setup_initialized();
    for seed in 1..6 {
        let _ = pi.initialize(&valid_params(seed), CONTRACT, NOW);
    }
    assert_eq!(pi.get_current_admin(), Some(p.admin));
    assert_eq!(pi.get_treasury(), Some(p.treasury));
    assert_eq!(pi.get_fee_bps(), p.fee_bps);
}

#[test]
fn test_is_initialized_returns_correct_values() {
    let mut pi = ProtocolInitializer::new();
    assert!(!pi.is_initialized());
    pi.initialize(&valid_params(0), CONTRACT, NOW).unwrap();
    assert!(pi.is_initialized());
}

#[test]
fn test_version_written_at_init_and_stable() {
    let mut pi = ProtocolInitializer::new();
    let v_before = pi.get_version();
    pi.initialize(&valid_params(0), CONTRACT, NOW).unwrap();
    let v_after = pi.get_version();
    assert_eq!(v_before, v_after);
    assert_eq!(v_after, PROTOCOL_VERSION);
}

// Parameter validation

#[test]
fn test_fee_bps_too_high_fails() {
    let mut p = valid_params(0);
    p.fee_bps = 1001;
    assert_eq!(init_with(&p), Err(QuickLendXError::InvalidFeeBasisPoints));
}

#[test]
fn test_fee_bps_max_value_succeeds() {
    let mut p = valid_params(0);
    p.fee_bps = 1000;
    assert!(init_with(&p).is_ok());
}

#[test]
fn test_fee_bps_zero_succeeds() {
    let mut p = valid_params(0);
    p.fee_bps = 0;
    assert!(init_with(&p).is_ok());
}

#[test]
fn test_fee_bps_u32_max_rejected() {
    let mut p = valid_params(0);
    p.fee_bps = u32::MAX;
    assert_eq!(init_with(&p), Err(QuickLendXError::InvalidFeeBasisPoints));
}

#[test]
fn test_min_invoice_amount_zero_fails() {
    let mut p = valid_params(0);
    p.min_invoice_amount = 0;
    assert_eq!(init_with(&p), Err(QuickLendXError::InvalidAmount));
}

#[test]
fn test_min_invoice_amount_negative_fails() {
    let mut p = valid_params(0);
    p.min_invoice_amount = -1000;
    assert_eq!(init_with(&p), Err(QuickLendXError::InvalidAmount));
}

#[test]
fn test_min_invoice_amount_small_positive_succeeds() {
    let mut p = valid_params(0);
    p.min_invoice_amount = 1;
    assert!(init_with(&p).is_ok());
}

#[test]
fn test_min_invoice_amount_large_succeeds() {
    let mut p = valid_params(0);
    p.min_invoice_amount = 1_000_000_000_000;
    assert!(init_with(&p).is_ok());
}

#[test]
fn test_max_due_date_days_zero_fails() {
    let mut p = valid_params(0);
    p.max_due_date_days = 0;
    assert_eq!(init_with(&p), Err(QuickLendXError::InvoiceDueDateInvalid));
}

#[test]
fn test_max_due_date_days_too_high_fails() {
    let mut p = valid_params(0);
    p.max_due_date_days = 731;
    assert_eq!(init_with(&p), Err(QuickLendXError::InvoiceDueDateInvalid));
}

#[test]
fn test_max_due_date_days_max_value_succeeds() {
    let mut p = valid_params(0);
    p.max_due_date_days = 730;
    assert!(init_with(&p).is_ok());
}

#[test]
fn test_max_due_date_days_one_succeeds() {
    let mut p = valid_params(0);
    p.max_due_date_days = 1;
    assert!(init_with(&p).is_ok());
}

#[test]
fn test_grace_period_too_long_fails() {
    let mut p = valid_params(0);
    p.grace_period_seconds = 2_592_001;
    assert_eq!(init_with(&p), Err(QuickLendXError::InvalidTimestamp));
}

#[test]
fn test_grace_period_max_value_succeeds() {
    let mut p = valid_params(0);
    p.grace_period_seconds = 2_592_000;
    assert!(init_with(&p).is_ok());
}

#[test]
fn test_grace_period_zero_succeeds() {
    let mut p = valid_params(0);
    p.grace_period_seconds = 0;
    assert!(init_with(&p).is_ok());
}

#[test]
fn test_treasury_same_as_admin_fails() {
    let mut p = valid_params(0);
    p.treasury = p.admin;
    assert_eq!(init_with(&p), Err(QuickLendXError::InvalidAddress));
}

#[test]
fn test_admin_is_contract_address_rejected() {
    let mut p = valid_params(0);
    p.admin = CONTRACT;
    assert_eq!(init_with(&p), Err(QuickLendXError::InvalidAddress));
}

#[test]
fn test_treasury_is_contract_address_rejected() {
    let mut p = valid_params(0);
    p.treasury = CONTRACT;
    assert_eq!(init_with(&p), Err(QuickLendXError::InvalidAddress));
}

#[test]
fn test_init_duplicate_currencies_rejected() {
    let mut p = valid_params(0);
    p.initial_currencies = vec![7, 7];
    assert_eq!(init_with(&p), Err(QuickLendXError::InvalidCurrency));
}

#[test]
fn test_init_currency_equals_admin_rejected() {
    let mut p = valid_params(0);
    p.initial_currencies = vec![p.admin];
    assert_eq!(init_with(&p), Err(QuickLendXError::InvalidCurrency));
}

#[test]
fn test_init_currency_equals_treasury_rejected() {
    let mut p = valid_params(0);
    p.initial_currencies = vec![p.treasury];
    assert_eq!(init_with(&p), Err(QuickLendXError::InvalidCurrency));
}

#[test]
fn test_init_currency_equals_contract_rejected() {
    let mut p = valid_params(0);
    p.initial_currencies = vec![CONTRACT];
    assert_eq!(init_with(&p), Err(QuickLendXError::InvalidCurrency));
}

#[test]
fn test_init_valid_currencies_accepted() {
    let mut p = valid_params(0);
    p.initial_currencies = vec![7, 8];
    assert!(init_with(&p).is_ok());
}

#[test]
fn test_validation_is_deterministic() {
    for _ in 0..3 {
        let mut p = valid_params(0);
        p.fee_bps = 9999;
        assert_eq!(init_with(&p), Err(QuickLendXError::InvalidFeeBasisPoints));
    }
}

#[test]
fn test_validation_order_fee_before_amount() {
    let mut p = valid_params(0);
    p.fee_bps = 9999;
    p.min_invoice_amount = -1;
    assert_eq!(init_with(&p), Err(QuickLendXError::InvalidFeeBasisPoints));
}

#[test]
fn test_all_params_at_minimum_boundary() {
    let mut p = valid_params(0);
    p.fee_bps = 0;
    p.min_invoice_amount = 1;
    p.max_due_date_days = 1;
    p.grace_period_seconds = 0;
    assert!(init_with(&p).is_ok());
}

#[test]
fn test_all_params_at_maximum_boundary() {
    let mut p = valid_params(0);
    p.fee_bps = 1000;
    p.min_invoice_amount = 1_000_000_000_000;
    p.max_due_date_days = 730;
    p.grace_period_seconds = 2_592_000;
    assert!(init_with(&p).is_ok());
}

#[test]
fn failed_init_leaves_protocol_uninitialized() {
    let mut pi = ProtocolInitializer::new();
    let mut p = valid_params(0);
    p.max_due_date_days = 0;
    assert!(pi.initialize(&p, CONTRACT, NOW).is_err());
    assert!(!pi.is_initialized());
    assert_eq!(pi.get_current_admin(), None);
    assert!(pi.get_protocol_config().is_none());
}

// Configuration updates

#[test]
fn test_set_protocol_config_succeeds() {
    let (mut pi, params) = setup_initialized();
    pi.set_protocol_config(params.admin, 2_000_000, 180, 86400, NOW).unwrap();
    let config = pi.get_protocol_config().unwrap();
    assert_eq!(config.min_invoice_amount, 2_000_000);
    assert_eq!(config.max_due_date_days, 180);
    assert_eq!(config.grace_period_seconds, 86400);
}

#[test]
fn test_set_protocol_config_non_admin_fails() {
    let (mut pi, _) = setup_initialized();
    assert_eq!(
        pi.set_protocol_config(9, 1_000_000, 365, 604800, NOW),
        Err(QuickLendXError::NotAdmin)
    );
}

#[test]
fn test_set_protocol_config_validates_parameters() {
    let (mut pi, params) = setup_initialized();
    assert_eq!(
        pi.set_protocol_config(params.admin, 0, 365, 604800, NOW),
        Err(QuickLendXError::InvalidAmount)
    );
    assert_eq!(
        pi.set_protocol_config(params.admin, 1_000_000, 0, 604800, NOW),
        Err(QuickLendXError::InvoiceDueDateInvalid)
    );
    assert_eq!(
        pi.set_protocol_config(params.admin, 1_000_000, 731, 604_800, NOW),
        Err(QuickLendXError::InvoiceDueDateInvalid)
    );
    assert_eq!(
        pi.set_protocol_config(params.admin, 1_000_000, 365, 3_000_000, NOW),
        Err(QuickLendXError::InvalidTimestamp)
    );
    assert_eq!(pi.get_min_invoice_amount(), params.min_invoice_amount);
}

#[test]
fn test_set_protocol_config_valid_update_atomic() {
    let (mut pi, params) = setup_initialized();
    pi.set_protocol_config(params.admin, 500_000, 180, 86_400, NOW).unwrap();
    assert_eq!(pi.get_min_invoice_amount(), 500_000);
    assert_eq!(pi.get_max_due_date_days(), 180);
    assert_eq!(pi.get_grace_period_seconds(), 86_400);
}

#[test]
fn test_set_fee_config_succeeds() {
    let (mut pi, params) = setup_initialized();
    pi.set_fee_config(params.admin, 300).unwrap();
    assert_eq!(pi.get_fee_bps(), 300);
}

#[test]
fn test_set_fee_config_validates_fee() {
    let (mut pi, params) = setup_initialized();
    assert_eq!(
        pi.set_fee_config(params.admin, 1001),
        Err(QuickLendXError::InvalidFeeBasisPoints)
    );
}

#[test]
fn test_set_fee_config_zero_allowed() {
    let (mut pi, params) = setup_initialized();
    pi.set_fee_config(params.admin, 0).unwrap();
    assert_eq!(pi.get_fee_bps(), 0);
}

#[test]
fn test_set_fee_config_non_admin_fails_and_preserves_state() {
    let (mut pi, params) = setup_initialized();
    assert_eq!(pi.set_fee_config(9, 300), Err(QuickLendXError::NotAdmin));
    assert_eq!(pi.get_fee_bps(), params.fee_bps);
}

#[test]
fn test_set_treasury_succeeds() {
    let (mut pi, params) = setup_initialized();
    pi.set_treasury(params.admin, 4242).unwrap();
    assert_eq!(pi.get_treasury(), Some(4242));
}

#[test]
fn test_set_treasury_same_as_admin_fails() {
    let (mut pi, params) = setup_initialized();
    assert_eq!(
        pi.set_treasury(params.admin, params.admin),
        Err(QuickLendXError::InvalidAddress)
    );
}

#[test]
fn test_set_treasury_non_admin_fails_and_preserves_state() {
    let (mut pi, params) = setup_initialized();
    assert_eq!(pi.set_treasury(9, 4242), Err(QuickLendXError::NotAdmin));
    assert_eq!(pi.get_treasury(), Some(params.treasury));
}

#[test]
fn test_admin_transfer_revokes_old_admin_config_access() {
    let (mut pi, p) = setup_initialized();
    let new_admin = 5_555;
    pi.transfer_admin(p.admin, new_admin).unwrap();
    assert!(pi.set_fee_config(new_admin, 300).is_ok());
    assert_eq!(pi.set_fee_config(p.admin, 400), Err(QuickLendXError::NotAdmin));
}

#[test]
fn admin_transfer_to_treasury_rejected() {
    let (mut pi, p) = setup_initialized();
    assert_eq!(
        pi.transfer_admin(p.admin, p.treasury),
        Err(QuickLendXError::InvalidAddress)
    );
    assert_eq!(pi.get_current_admin(), Some(p.admin));
}

// Queries

#[test]
fn test_query_functions_before_initialization() {
    let pi = ProtocolInitializer::new();
    assert_eq!(pi.get_treasury(), None);
    assert_eq!(pi.get_fee_bps(), 200);
    assert_eq!(pi.get_min_invoice_amount(), 10);
    assert_eq!(pi.get_max_due_date_days(), 365);
    assert_eq!(pi.get_grace_period_seconds(), 604800);
}

#[test]
fn test_query_functions_after_initialization() {
    let (pi, params) = setup_initialized();
    assert_eq!(pi.get_treasury(), Some(params.treasury));
    assert_eq!(pi.get_fee_bps(), params.fee_bps);
    assert_eq!(pi.get_min_invoice_amount(), params.min_invoice_amount);
    assert_eq!(pi.get_max_due_date_days(), params.max_due_date_days);
    assert_eq!(pi.get_grace_period_seconds(), params.grace_period_seconds);
}

#[test]
fn test_get_protocol_config_returns_none_before_init() {
    let pi = ProtocolInitializer::new();
    assert!(pi.get_protocol_config().is_none());
}

#[test]
fn test_multiple_config_updates() {
    let (mut pi, params) = setup_initialized();
    pi.set_protocol_config(params.admin, 1_500_000, 200, 100_000, NOW).unwrap();
    pi.set_protocol_config(params.admin, 2_000_000, 180, 86400, NOW).unwrap();
    pi.set_fee_config(params.admin, 300).unwrap();
    let config = pi.get_protocol_config().unwrap();
    assert_eq!(config.min_invoice_amount, 2_000_000);
    assert_eq!(config.max_due_date_days, 180);
    assert_eq!(config.grace_period_seconds, 86400);
    assert_eq!(pi.get_fee_bps(), 300);
}

#[test]
fn protocol_config_validation_order() {
    assert_eq!(
        validate_protocol_config(0, 0, u64::MAX),
        Err(QuickLendXError::InvalidAmount)
    );
    assert_eq!(
        validate_protocol_config(1, 0, u64::MAX),
        Err(QuickLendXError::InvoiceDueDateInvalid)
    );
    assert_eq!(
        validate_protocol_config(1, 1, u64::MAX),
        Err(QuickLendXError::InvalidTimestamp)
    );
    assert_eq!(validate_protocol_config(1, 1, 2_592_000), Ok(()));
}

// Further configuration scenarios

#[test]
fn test_get_protocol_config_returns_config_after_init() {
    let (pi, params) = setup_initialized();
    let config = pi.get_protocol_config();
    assert!(config.is_some(), "Config must exist after initialization");
    let config = config.unwrap();
    assert_eq!(config.min_invoice_amount, params.min_invoice_amount);
    assert_eq!(config.max_due_date_days, params.max_due_date_days);
    assert_eq!(config.grace_period_seconds, params.grace_period_seconds);
    assert_eq!(config.updated_by, params.admin);
}

#[test]
fn test_boundary_values_succeed() {
    let mut params = valid_params(0);
    params.fee_bps = 1000;
    params.min_invoice_amount = 1;
    params.max_due_date_days = 730;
    params.grace_period_seconds = 2_592_000;
    assert!(init_with(&params).is_ok(), "Boundary values must succeed");
}

#[test]
fn test_full_initialization_workflow() {
    let mut pi = ProtocolInitializer::new();
    assert!(!pi.is_initialized());

    let params = valid_params(0);
    pi.initialize(&params, CONTRACT, NOW).unwrap();
    assert!(pi.is_initialized());
    assert_eq!(pi.get_current_admin(), Some(params.admin));

    pi.set_protocol_config(params.admin, 2_000_000, 180, 86400, NOW).unwrap();
    pi.set_fee_config(params.admin, 300).unwrap();
    let new_treasury = 9_999;
    pi.set_treasury(params.admin, new_treasury).unwrap();

    let config = pi.get_protocol_config().unwrap();
    assert_eq!(config.min_invoice_amount, 2_000_000);
    assert_eq!(pi.get_fee_bps(), 300);
    assert_eq!(pi.get_treasury(), Some(new_treasury));
}

#[test]
fn test_admin_integration() {
    let mut pi = ProtocolInitializer::new();
    let params = valid_params(0);
    pi.initialize(&params, CONTRACT, NOW).unwrap();
    assert_eq!(pi.get_current_admin(), Some(params.admin));

    let new_admin = 8_888;
    pi.transfer_admin(params.admin, new_admin).unwrap();
    assert!(pi.set_fee_config(new_admin, 400).is_ok(), "New admin must be able to update config");
    assert_eq!(
        pi.set_fee_config(params.admin, 500),
        Err(QuickLendXError::NotAdmin),
        "Old admin must not be able to update config"
    );
}

// Version

#[test]
fn test_get_version_before_init_returns_constant() {
    let pi = ProtocolInitializer::new();
    assert_eq!(pi.get_version(), PROTOCOL_VERSION, "get_version must return PROTOCOL_VERSION constant before init");
}

#[test]
fn test_get_version_after_init_matches_constant() {
    let (pi, _params) = setup_initialized();
    assert_eq!(pi.get_version(), PROTOCOL_VERSION, "get_version must equal PROTOCOL_VERSION after init");
}

#[test]
fn test_get_version_stored_in_instance_storage() {
    let (pi, _params) = setup_initialized();
    assert_eq!(pi.get_version(), PROTOCOL_VERSION, "Stored version must match PROTOCOL_VERSION");
}

#[test]
fn test_get_version_consistent_before_and_after_init() {
    let mut pi = ProtocolInitializer::new();
    let before = pi.get_version();
    pi.initialize(&valid_params(0), CONTRACT, NOW).unwrap();
    assert_eq!(before, pi.get_version(), "Version must be the same before and after init");
}

#[test]
fn test_reinit_does_not_change_version() {
    let (mut pi, params) = setup_initialized();
    let v1 = pi.get_version();
    let _ = pi.initialize(&params, CONTRACT, NOW);
    assert_eq!(pi.get_version(), v1, "Version must not change on idempotent re-init");
}
