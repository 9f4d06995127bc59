use escrow::amount_validation::{
    safe_add_amounts, safe_subtract_amounts, validate_contract_total, validate_deposit_amount,
    validate_milestone_amounts, validate_single_amount, AmountValidationError,
    MAX_SINGLE_AMOUNT_STROOPS, MIN_POSITIVE_AMOUNT,
};
use escrow::MAX_TOTAL_ESCROW_STROOPS;

#[test]
fn test_validate_single_amount_works() {
    assert!(validate_single_amount(1).is_ok());
    assert!(validate_single_amount(100_0000000).is_ok());
    assert!(validate_single_amount(MAX_SINGLE_AMOUNT_STROOPS).is_ok());

    assert_eq!(validate_single_amount(0), Err(AmountValidationError::NonPositiveAmount));
    assert_eq!(validate_single_amount(-1), Err(AmountValidationError::NonPositiveAmount));
    assert_eq!(
        validate_single_amount(MAX_SINGLE_AMOUNT_STROOPS + 1),
        Err(AmountValidationError::AmountExceedsMaximum)
    );
}

#[test]
fn test_validate_milestone_amounts_works() {
    let milestones1 = [100_0000000, 200_0000000, 300_0000000];
    assert!(validate_milestone_amounts(&milestones1, MAX_TOTAL_ESCROW_STROOPS).is_ok());
    assert_eq!(
        validate_milestone_amounts(&milestones1, MAX_TOTAL_ESCROW_STROOPS).unwrap(),
        600_0000000
    );

    let milestones2 = [MAX_TOTAL_ESCROW_STROOPS];
    assert!(validate_milestone_amounts(&milestones2, MAX_TOTAL_ESCROW_STROOPS).is_ok());

    let milestones3 = [100_0000000, 0, 300_0000000];
    assert_eq!(
        validate_milestone_amounts(&milestones3, MAX_TOTAL_ESCROW_STROOPS),
        Err(AmountValidationError::NonPositiveAmount)
    );

    let milestones4 = [100_0000000, -50_0000000, 300_0000000];
    assert_eq!(
        validate_milestone_amounts(&milestones4, MAX_TOTAL_ESCROW_STROOPS),
        Err(AmountValidationError::NonPositiveAmount)
    );

    let milestones5 = [600_000_0000000, 500_000_0000000];
    assert_eq!(
        validate_milestone_amounts(&milestones5, MAX_TOTAL_ESCROW_STROOPS),
        Err(AmountValidationError::ExceedsContractMaximum)
    );
}

#[test]
fn test_validate_deposit_amount_works() {
    assert!(validate_deposit_amount(100_0000000, 0, MAX_TOTAL_ESCROW_STROOPS).is_ok());
    assert!(validate_deposit_amount(100_0000000, 500_0000000, MAX_TOTAL_ESCROW_STROOPS).is_ok());
    assert!(validate_deposit_amount(MAX_TOTAL_ESCROW_STROOPS, 0, MAX_TOTAL_ESCROW_STROOPS).is_ok());

    assert_eq!(
        validate_deposit_amount(0, 0, MAX_TOTAL_ESCROW_STROOPS),
        Err(AmountValidationError::NonPositiveAmount)
    );
    assert_eq!(
        validate_deposit_amount(-1, 0, MAX_TOTAL_ESCROW_STROOPS),
        Err(AmountValidationError::NonPositiveAmount)
    );

    assert_eq!(
        validate_deposit_amount(600_000_0000000, 500_000_0000000, MAX_TOTAL_ESCROW_STROOPS),
        Err(AmountValidationError::ExceedsContractMaximum)
    );
}

#[test]
fn test_validate_contract_total_works() {
    assert!(validate_contract_total(100_0000000, MAX_TOTAL_ESCROW_STROOPS).is_ok());
    assert!(validate_contract_total(MAX_TOTAL_ESCROW_STROOPS, MAX_TOTAL_ESCROW_STROOPS).is_ok());

    assert_eq!(
        validate_contract_total(MAX_TOTAL_ESCROW_STROOPS + 1, MAX_TOTAL_ESCROW_STROOPS),
        Err(AmountValidationError::ExceedsContractMaximum)
    );
}

#[test]
fn test_safe_arithmetic_works() {
    assert_eq!(safe_add_amounts(100, 200), Some(300));
    assert_eq!(safe_add_amounts(0, 0), Some(0));
    assert_eq!(safe_add_amounts(i128::MAX, 1), None);
    assert_eq!(safe_add_amounts(i128::MIN, -1), None);

    assert_eq!(safe_subtract_amounts(300, 100), Some(200));
    assert_eq!(safe_subtract_amounts(100, 100), Some(0));
}

#[test]
fn simple_amount_test_test_edge_cases() {
    assert!(validate_single_amount(MIN_POSITIVE_AMOUNT).is_ok());
    let small_milestones = [1, 1, 1];
    assert!(validate_milestone_amounts(&small_milestones, MAX_TOTAL_ESCROW_STROOPS).is_ok());

    assert!(validate_single_amount(MAX_SINGLE_AMOUNT_STROOPS).is_ok());
    assert_eq!(
        validate_single_amount(MAX_SINGLE_AMOUNT_STROOPS + 1),
        Err(AmountValidationError::AmountExceedsMaximum)
    );

    let boundary_milestones = [MAX_TOTAL_ESCROW_STROOPS];
    assert!(validate_milestone_amounts(&boundary_milestones, MAX_TOTAL_ESCROW_STROOPS).is_ok());

    let over_boundary_milestones = [MAX_TOTAL_ESCROW_STROOPS + 1];
    assert_eq!(
        validate_milestone_amounts(&over_boundary_milestones, MAX_TOTAL_ESCROW_STROOPS),
        Err(AmountValidationError::AmountExceedsMaximum)
    );
}

#[test]
fn test_constants_are_reasonable() {
    assert_eq!(MIN_POSITIVE_AMOUNT, 1);
    assert_eq!(MAX_SINGLE_AMOUNT_STROOPS, 1_000_000_0000000);
    assert_eq!(MAX_TOTAL_ESCROW_STROOPS, 1_000_000_0000000);
    assert!(MAX_SINGLE_AMOUNT_STROOPS <= MAX_TOTAL_ESCROW_STROOPS);
}

#[test]
fn test_single_amount_validation() {
    assert!(validate_single_amount(1).is_ok());
    assert!(validate_single_amount(100_0000000).is_ok());
    assert!(validate_single_amount(1_000_000_0000000).is_ok());

    assert_eq!(validate_single_amount(0), Err(AmountValidationError::NonPositiveAmount));
    assert_eq!(validate_single_amount(-1), Err(AmountValidationError::NonPositiveAmount));
    assert_eq!(validate_single_amount(-100_0000000), Err(AmountValidationError::NonPositiveAmount));
    assert_eq!(
        validate_single_amount(1_000_000_0000001),
        Err(AmountValidationError::AmountExceedsMaximum)
    );
}

#[test]
fn test_milestone_amounts_validation() {
    let max_total = MAX_TOTAL_ESCROW_STROOPS;

    let milestones1 = vec![100_0000000, 200_0000000, 300_0000000];
    assert!(validate_milestone_amounts(&milestones1, max_total).is_ok());
    assert_eq!(validate_milestone_amounts(&milestones1, max_total).unwrap(), 600_0000000);

    let milestones2 = vec![max_total];
    assert!(validate_milestone_amounts(&milestones2, max_total).is_ok());

    let milestones3 = vec![500_000_0000000, 500_000_0000000];
    assert!(validate_milestone_amounts(&milestones3, max_total).is_ok());

    let milestones4 = vec![100_0000000, 0, 300_0000000];
    assert_eq!(
        validate_milestone_amounts(&milestones4, max_total),
        Err(AmountValidationError::NonPositiveAmount)
    );

    let milestones5 = vec![100_0000000, -50_0000000, 300_0000000];
    assert_eq!(
        validate_milestone_amounts(&milestones5, max_total),
        Err(AmountValidationError::NonPositiveAmount)
    );

    let milestones6 = vec![600_000_0000000, 500_000_0000000];
    assert_eq!(
        validate_milestone_amounts(&milestones6, max_total),
        Err(AmountValidationError::ExceedsContractMaximum)
    );
}

#[test]
fn test_deposit_amount_validation() {
    let max_total = MAX_TOTAL_ESCROW_STROOPS;

    assert!(validate_deposit_amount(100_0000000, 0, max_total).is_ok());
    assert!(validate_deposit_amount(100_0000000, 500_0000000, max_total).is_ok());
    assert!(validate_deposit_amount(max_total, 0, max_total).is_ok());

    assert_eq!(validate_deposit_amount(0, 0, max_total), Err(AmountValidationError::NonPositiveAmount));
    assert_eq!(validate_deposit_amount(-1, 0, max_total), Err(AmountValidationError::NonPositiveAmount));

    assert_eq!(
        validate_deposit_amount(600_000_0000000, 500_000_0000000, max_total),
        Err(AmountValidationError::ExceedsContractMaximum)
    );

    assert_eq!(
        validate_deposit_amount(1_000_000_0000001, 0, max_total),
        Err(AmountValidationError::AmountExceedsMaximum)
    );
}

#[test]
fn test_safe_arithmetic_operations() {
    assert_eq!(safe_add_amounts(100, 200), Some(300));
    assert_eq!(safe_add_amounts(0, 0), Some(0));
    assert_eq!(safe_add_amounts(i128::MAX, 1), None);
    assert_eq!(safe_add_amounts(i128::MIN, -1), None);

    assert_eq!(safe_subtract_amounts(300, 100), Some(200));
    assert_eq!(safe_subtract_amounts(100, 100), Some(0));
    assert_eq!(safe_subtract_amounts(0, 1), None);
    assert_eq!(safe_subtract_amounts(i128::MIN, 1), None);
}

#[test]
fn test_stroop_precision() {
    let valid_stroop_amounts = vec![1, 100, 1_0000000, 123_4567890];
    for amount in valid_stroop_amounts {
        assert!(validate_single_amount(amount).is_ok());
    }
}

#[test]
fn test_large_amount_arrays() {
    let max_total = MAX_TOTAL_ESCROW_STROOPS;

    let mut many_milestones = Vec::new();
    for _ in 0..10 {
        many_milestones.push(100_0000000);
    }
    assert!(validate_milestone_amounts(&many_milestones, max_total).is_ok());

    let mut overflow_milestones = Vec::new();
    for _ in 0..10 {
        overflow_milestones.push(200_000_0000000);
    }
    assert_eq!(
        validate_milestone_amounts(&overflow_milestones, max_total),
        Err(AmountValidationError::ExceedsContractMaximum)
    );
}

#[test]
fn test_cumulative_deposit_validation() {
    let max_total = MAX_TOTAL_ESCROW_STROOPS;

    assert!(validate_deposit_amount(100_0000000, 0, max_total).is_ok());
    assert!(validate_deposit_amount(100_0000000, 100_0000000, max_total).is_ok());
    assert!(validate_deposit_amount(100_0000000, 200_0000000, max_total).is_ok());

    assert_eq!(
        validate_deposit_amount(800_000_0000000, 300_000_0000000, max_total),
        Err(AmountValidationError::ExceedsContractMaximum)
    );
}

// Further cases of our own.

#[test]
fn validate_deposit_returns_new_running_total() {
    assert_eq!(validate_deposit_amount(5, 10, 100), Ok(15));
    assert_eq!(validate_deposit_amount(90, 10, 100), Ok(100));
    assert_eq!(
        validate_deposit_amount(91, 10, 100),
        Err(AmountValidationError::ExceedsContractMaximum)
    );
    assert_eq!(
        validate_deposit_amount(1, i128::MAX, i128::MAX),
        Err(AmountValidationError::ExceedsContractMaximum)
    );
}

#[test]
fn validate_milestones_reports_first_invalid_amount_before_totals() {
    // A later invalid amount is found even though the running total already exceeds the cap.
    let amounts = [600_000_0000000, 500_000_0000000, 0];
    assert_eq!(
        validate_milestone_amounts(&amounts, MAX_TOTAL_ESCROW_STROOPS),
        Err(AmountValidationError::NonPositiveAmount)
    );
    let amounts = [-1, MAX_SINGLE_AMOUNT_STROOPS + 1];
    assert_eq!(
        validate_milestone_amounts(&amounts, MAX_TOTAL_ESCROW_STROOPS),
        Err(AmountValidationError::NonPositiveAmount)
    );
    let empty: [i128; 0] = [];
    assert_eq!(validate_milestone_amounts(&empty, MAX_TOTAL_ESCROW_STROOPS), Ok(0));
    assert_eq!(
        validate_milestone_amounts(&empty, -1),
        Err(AmountValidationError::ExceedsContractMaximum)
    );
}

#[test]
fn safe_subtract_accepts_negative_operands_with_non_negative_result() {
    assert_eq!(safe_subtract_amounts(-5, -10), Some(5));
    assert_eq!(safe_subtract_amounts(-10, -5), None);
    assert_eq!(safe_subtract_amounts(i128::MAX, -1), None);
    assert_eq!(safe_add_amounts(-7, 3), Some(-4));
}
