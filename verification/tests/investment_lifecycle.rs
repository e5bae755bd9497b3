use quicklendx::invoice_id::InvoiceId;
use quicklendx::errors::QuickLendXError;
use quicklendx::investment::{Investment, InvestmentStatus};
use quicklendx::investment_storage::InvestmentStorage;

fn investment(id: u64, status: InvestmentStatus) -> Investment {
    Investment {
        investment_id: id,
        invoice_id: InvoiceId { timestamp: 0, sequence: 0, counter: 500 + id as u32 },
        investor: 77,
        amount: 10_000,
        funded_at: 1_000,
        status,
        insurance: Vec::new(),
    }
}

// Invalid and backward transitions

#[test]
fn test_completed_to_defaulted_rejected() {
    assert_eq!(
        InvestmentStatus::validate_transition(
            &InvestmentStatus::Completed,
            &InvestmentStatus::Defaulted
        ),
        Err(QuickLendXError::InvalidStatus)
    );
}

#[test]
fn test_defaulted_to_completed_rejected() {
    assert_eq!(
        InvestmentStatus::validate_transition(
            &InvestmentStatus::Defaulted,
            &InvestmentStatus::Completed
        ),
        Err(QuickLendXError::InvalidStatus)
    );
}

#[test]
fn test_refunded_to_active_rejected() {
    assert_eq!(
        InvestmentStatus::validate_transition(
            &InvestmentStatus::Refunded,
            &InvestmentStatus::Active
        ),
        Err(QuickLendXError::InvalidStatus)
    );
}

#[test]
fn test_withdrawn_to_completed_rejected() {
    assert_eq!(
        InvestmentStatus::validate_transition(
            &InvestmentStatus::Withdrawn,
            &InvestmentStatus::Completed
        ),
        Err(QuickLendXError::InvalidStatus)
    );
}

#[test]
fn test_active_valid_transitions_accepted() {
    for to in [
        InvestmentStatus::Completed,
        InvestmentStatus::Defaulted,
        InvestmentStatus::Refunded,
        InvestmentStatus::Withdrawn,
    ] {
        assert!(
            InvestmentStatus::validate_transition(&InvestmentStatus::Active, &to).is_ok(),
            "Active -> {:?} should be allowed",
            to
        );
    }
}

// Terminal state immutability

#[test]
fn test_terminal_completed_is_immutable() {
    let status_completed = InvestmentStatus::Completed;
    let test_targets = vec![
        InvestmentStatus::Active,
        InvestmentStatus::Defaulted,
        InvestmentStatus::Refunded,
        InvestmentStatus::Withdrawn,
        InvestmentStatus::Completed,
    ];
    for target in test_targets {
        let result = InvestmentStatus::validate_transition(&status_completed, &target);
        assert!(
            result.is_err(),
            "Completed should not transition to {:?}",
            target
        );
    }
}

#[test]
fn test_terminal_defaulted_is_immutable() {
    let status_defaulted = InvestmentStatus::Defaulted;
    let test_targets = vec![
        InvestmentStatus::Active,
        InvestmentStatus::Completed,
        InvestmentStatus::Refunded,
        InvestmentStatus::Withdrawn,
        InvestmentStatus::Defaulted,
    ];
    for target in test_targets {
        let result = InvestmentStatus::validate_transition(&status_defaulted, &target);
        assert!(
            result.is_err(),
            "Defaulted should not transition to {:?}",
            target
        );
    }
}

#[test]
fn test_terminal_refunded_is_immutable() {
    let status_refunded = InvestmentStatus::Refunded;
    let test_targets = vec![
        InvestmentStatus::Active,
        InvestmentStatus::Completed,
        InvestmentStatus::Defaulted,
        InvestmentStatus::Withdrawn,
        InvestmentStatus::Refunded,
    ];
    for target in test_targets {
        let result = InvestmentStatus::validate_transition(&status_refunded, &target);
        assert!(
            result.is_err(),
            "Refunded should not transition to {:?}",
            target
        );
    }
}

#[test]
fn test_terminal_withdrawn_is_immutable() {
    let status_withdrawn = InvestmentStatus::Withdrawn;
    let test_targets = vec![
        InvestmentStatus::Active,
        InvestmentStatus::Completed,
        InvestmentStatus::Defaulted,
        InvestmentStatus::Refunded,
        InvestmentStatus::Withdrawn,
    ];
    for target in test_targets {
        let result = InvestmentStatus::validate_transition(&status_withdrawn, &target);
        assert!(
            result.is_err(),
            "Withdrawn should not transition to {:?}",
            target
        );
    }
}

#[test]
fn test_transitions_guard_consistency() {
    let valid_transitions = vec![
        (InvestmentStatus::Active, InvestmentStatus::Completed, true),
        (InvestmentStatus::Active, InvestmentStatus::Defaulted, true),
        (InvestmentStatus::Active, InvestmentStatus::Refunded, true),
        (InvestmentStatus::Active, InvestmentStatus::Withdrawn, true),
        (InvestmentStatus::Completed, InvestmentStatus::Active, false),
        (InvestmentStatus::Completed, InvestmentStatus::Completed, false),
        (InvestmentStatus::Defaulted, InvestmentStatus::Active, false),
        (InvestmentStatus::Refunded, InvestmentStatus::Active, false),
        (InvestmentStatus::Withdrawn, InvestmentStatus::Active, false),
    ];
    for (from, to, should_succeed) in valid_transitions {
        let result = InvestmentStatus::validate_transition(&from, &to);
        assert_eq!(
            result.is_ok(),
            should_succeed,
            "Transition {:?} → {:?} should {}",
            from,
            to,
            if should_succeed { "succeed" } else { "fail" }
        );
    }
}

#[test]
fn active_to_active_rejected() {
    assert_eq!(
        InvestmentStatus::validate_transition(&InvestmentStatus::Active, &InvestmentStatus::Active),
        Err(QuickLendXError::InvalidStatus)
    );
}

#[test]
fn only_active_is_not_terminal() {
    assert!(!InvestmentStatus::Active.is_terminal());
    assert!(InvestmentStatus::Completed.is_terminal());
    assert!(InvestmentStatus::Defaulted.is_terminal());
    assert!(InvestmentStatus::Refunded.is_terminal());
    assert!(InvestmentStatus::Withdrawn.is_terminal());
}

// Storage and the active index

#[test]
fn stored_active_investment_enters_index() {
    let mut storage = InvestmentStorage::new();
    storage.store_investment(investment(1, InvestmentStatus::Active)).unwrap();
    storage.store_investment(investment(2, InvestmentStatus::Completed)).unwrap();
    assert_eq!(storage.get_active_investment_ids(), vec![1]);
    assert!(storage.validate_no_orphan_investments());
}

#[test]
fn duplicate_investment_id_rejected() {
    let mut storage = InvestmentStorage::new();
    storage.store_investment(investment(1, InvestmentStatus::Active)).unwrap();
    assert_eq!(
        storage.store_investment(investment(1, InvestmentStatus::Active)),
        Err(QuickLendXError::OperationNotAllowed)
    );
    assert_eq!(
        storage.store_investment(investment(u64::MAX, InvestmentStatus::Active)),
        Err(QuickLendXError::OperationNotAllowed)
    );
    assert_eq!(storage.get_active_investment_ids(), vec![1]);
}

#[test]
fn generated_ids_are_fresh_and_increasing() {
    let mut storage = InvestmentStorage::new();
    let a = storage.generate_unique_investment_id();
    let b = storage.generate_unique_investment_id();
    assert_eq!(a, 0);
    assert_eq!(b, 1);
    storage.store_investment(investment(7, InvestmentStatus::Active)).unwrap();
    let c = storage.generate_unique_investment_id();
    assert_eq!(c, 8);
}

#[test]
fn terminal_transition_leaves_active_index() {
    let mut storage = InvestmentStorage::new();
    storage.store_investment(investment(1, InvestmentStatus::Active)).unwrap();
    storage.store_investment(investment(2, InvestmentStatus::Active)).unwrap();
    storage.store_investment(investment(3, InvestmentStatus::Active)).unwrap();

    storage.update_investment_status(2, InvestmentStatus::Completed).unwrap();
    assert_eq!(storage.get_active_investment_ids(), vec![1, 3]);
    assert_eq!(
        storage.get_investment(2).unwrap().status,
        InvestmentStatus::Completed
    );
    assert!(storage.validate_no_orphan_investments());

    storage.update_investment_status(1, InvestmentStatus::Defaulted).unwrap();
    storage.update_investment_status(3, InvestmentStatus::Refunded).unwrap();
    assert!(storage.get_active_investment_ids().is_empty());
    assert!(storage.validate_no_orphan_investments());
}

#[test]
fn double_settle_rejected_in_storage() {
    let mut storage = InvestmentStorage::new();
    storage.store_investment(investment(1, InvestmentStatus::Active)).unwrap();
    storage.update_investment_status(1, InvestmentStatus::Completed).unwrap();
    assert_eq!(
        storage.update_investment_status(1, InvestmentStatus::Completed),
        Err(QuickLendXError::InvalidStatus)
    );
    assert_eq!(
        storage.update_investment_status(1, InvestmentStatus::Defaulted),
        Err(QuickLendXError::InvalidStatus)
    );
    assert_eq!(
        storage.get_investment(1).unwrap().status,
        InvestmentStatus::Completed
    );
}

#[test]
fn update_of_missing_investment_fails() {
    let mut storage = InvestmentStorage::new();
    assert_eq!(
        storage.update_investment_status(9, InvestmentStatus::Completed),
        Err(QuickLendXError::StorageKeyNotFound)
    );
    assert!(storage.get_investment(9).is_none());
}
