//! Validation of every money-like value: positivity, the per-amount cap,
//! the per-contract cap, and arithmetic that cannot overflow.
use vstd::prelude::*;

verus! {

/// The smallest amount accepted anywhere: one stroop.
pub const MIN_POSITIVE_AMOUNT: i128 = 1;

/// The largest single amount (one milestone or one deposit): one million tokens.
pub const MAX_SINGLE_AMOUNT_STROOPS: i128 = 1_000_000_0000000;

/// The largest total an escrow may hold: one million tokens.
pub const MAX_TOTAL_ESCROW_STROOPS: i128 = 1_000_000_0000000;

/// The largest number of milestones one escrow may have.
pub const MAX_MILESTONES: u32 = 10;

/// Why an amount was rejected.
#[derive(Clone, Copy, Debug, PartialEq, Eq, Structural)]
pub enum AmountValidationError {
    /// The amount is zero or negative.
    NonPositiveAmount,
    /// The amount is above `MAX_SINGLE_AMOUNT_STROOPS`.
    AmountExceedsMaximum,
    /// The running total would go above the contract's maximum.
    ExceedsContractMaximum,
}

/// The error a single amount gets, if any.
pub open spec fn single_amount_error(amount: int) -> Option<AmountValidationError> {
    if amount < MIN_POSITIVE_AMOUNT {
        Some(AmountValidationError::NonPositiveAmount)
    } else if amount > MAX_SINGLE_AMOUNT_STROOPS {
        Some(AmountValidationError::AmountExceedsMaximum)
    } else {
        None
    }
}

/// Mathematical sum of a sequence of amounts.
pub open spec fn amounts_sum(s: Seq<i128>) -> int
    decreases s.len(),
{
    if s.len() == 0 {
        0
    } else {
        amounts_sum(s.drop_last()) + s.last()
    }
}

/// The error of the first amount in `s` that is not a valid single amount.
pub open spec fn first_amount_error(s: Seq<i128>) -> Option<AmountValidationError>
    decreases s.len(),
{
    if s.len() == 0 {
        None
    } else if first_amount_error(s.drop_last()) is Some {
        first_amount_error(s.drop_last())
    } else {
        single_amount_error(s.last() as int)
    }
}

/// With no invalid amount, every amount is within the single-amount bounds.
pub proof fn lemma_no_error_bounds(s: Seq<i128>)
    requires
        first_amount_error(s) is None,
    ensures
        forall|i: int|
            0 <= i < s.len() ==> MIN_POSITIVE_AMOUNT <= #[trigger] s[i] <= MAX_SINGLE_AMOUNT_STROOPS,
    decreases s.len(),
{
    if s.len() > 0 {
        lemma_no_error_bounds(s.drop_last());
        assert forall|i: int| 0 <= i < s.len() implies MIN_POSITIVE_AMOUNT <= #[trigger] s[i]
            <= MAX_SINGLE_AMOUNT_STROOPS by {
            if i < s.len() - 1 {
                assert(s[i] == s.drop_last()[i]);
            }
        }
    }
}

/// A prefix of positive amounts sums to no more than the whole sequence.
pub proof fn lemma_prefix_sum_le(s: Seq<i128>, k: int)
    requires
        0 <= k <= s.len(),
        forall|i: int| 0 <= i < s.len() ==> #[trigger] s[i] >= 0,
    ensures
        amounts_sum(s.take(k)) <= amounts_sum(s),
    decreases s.len() - k,
{
    if k < s.len() {
        lemma_prefix_sum_le(s, k + 1);
        assert(s.take(k + 1).drop_last() =~= s.take(k));
    } else {
        assert(s.take(k) =~= s);
    }
}

/// Checks one amount against the positivity rule and the single-amount cap.
pub fn validate_single_amount(amount: i128) -> (r: Result<(), AmountValidationError>)
    ensures
        match single_amount_error(amount as int) {
            Some(e) => r == Err::<(), AmountValidationError>(e),
            None => r is Ok,
        },
{
    if amount < MIN_POSITIVE_AMOUNT {
        Err(AmountValidationError::NonPositiveAmount)
    } else if amount > MAX_SINGLE_AMOUNT_STROOPS {
        Err(AmountValidationError::AmountExceedsMaximum)
    } else {
        Ok(())
    }
}

/// Checks each milestone amount, then their total against `max_total`,
/// and returns the total.
pub fn validate_milestone_amounts(amounts: &[i128], max_total: i128) -> (r: Result<
    i128,
    AmountValidationError,
>)
    ensures
        match first_amount_error(amounts@) {
            Some(e) => r == Err::<i128, AmountValidationError>(e),
            None => if amounts_sum(amounts@) > max_total {
                r == Err::<i128, AmountValidationError>(
                    AmountValidationError::ExceedsContractMaximum,
                )
            } else {
                r == Ok::<i128, AmountValidationError>(amounts_sum(amounts@) as i128)
            },
        },
{
    let n = amounts.len();
    let mut i: usize = 0;
    while i < n
        invariant
            n == amounts@.len(),
            i <= n,
            first_amount_error(amounts@.take(i as int)) is None,
        decreases n - i,
    {
        assert(amounts@.take(i as int + 1).drop_last() =~= amounts@.take(i as int));
        let a = amounts[i];
        match validate_single_amount(a) {
            Err(e) => {
                proof {
                    lemma_first_error_extends(amounts@, i as int);
                }
                return Err(e);
            },
            Ok(()) => {},
        }
        i = i + 1;
    }
    assert(amounts@.take(n as int) =~= amounts@);
    proof {
        lemma_no_error_bounds(amounts@);
    }
    if max_total < 0 {
        proof {
            lemma_prefix_sum_le(amounts@, 0);
            assert(amounts@.take(0) =~= Seq::<i128>::empty());
        }
        return Err(AmountValidationError::ExceedsContractMaximum);
    }
    let mut total: i128 = 0;
    let mut j: usize = 0;
    assert(amounts@.take(0) =~= Seq::<i128>::empty());
    while j < n
        invariant
            n == amounts@.len(),
            j <= n,
            first_amount_error(amounts@) is None,
            forall|k: int| 0 <= k < n ==> MIN_POSITIVE_AMOUNT <= #[trigger] amounts@[k] <= MAX_SINGLE_AMOUNT_STROOPS,
            total as int == amounts_sum(amounts@.take(j as int)),
            total <= max_total,
        decreases n - j,
    {
        assert(amounts@.take(j as int + 1).drop_last() =~= amounts@.take(j as int));
        let a = amounts[j];
        match total.checked_add(a) {
            None => {
                proof {
                    lemma_prefix_sum_le(amounts@, j as int + 1);
                }
                return Err(AmountValidationError::ExceedsContractMaximum);
            },
            Some(t) => {
                if t > max_total {
                    proof {
                        lemma_prefix_sum_le(amounts@, j as int + 1);
                    }
                    return Err(AmountValidationError::ExceedsContractMaximum);
                }
                total = t;
            },
        }
        j = j + 1;
    }
    assert(amounts@.take(n as int) =~= amounts@);
    Ok(total)
}

/// The first invalid amount of a prefix decides the error of every longer prefix.
proof fn lemma_first_error_extends(s: Seq<i128>, i: int)
    requires
        0 <= i < s.len(),
        first_amount_error(s.take(i)) is None,
        single_amount_error(s[i] as int) is Some,
    ensures
        first_amount_error(s) == single_amount_error(s[i] as int),
    decreases s.len() - i,
{
    if i == s.len() - 1 {
        assert(s.drop_last() =~= s.take(i));
    } else {
        assert(s.drop_last().take(i) =~= s.take(i));
        lemma_first_error_extends(s.drop_last(), i);
    }
}

/// Checks a deposit: the amount itself, then the running total
/// `current_total + amount` against `max_total`; returns the new total.
pub fn validate_deposit_amount(amount: i128, current_total: i128, max_total: i128) -> (r: Result<
    i128,
    AmountValidationError,
>)
    ensures
        match single_amount_error(amount as int) {
            Some(e) => r == Err::<i128, AmountValidationError>(e),
            None => if current_total + amount > max_total {
                r == Err::<i128, AmountValidationError>(
                    AmountValidationError::ExceedsContractMaximum,
                )
            } else {
                r == Ok::<i128, AmountValidationError>((current_total + amount) as i128)
            },
        },
{
    match validate_single_amount(amount) {
        Err(e) => Err(e),
        Ok(()) => match current_total.checked_add(amount) {
            None => Err(AmountValidationError::ExceedsContractMaximum),
            Some(t) => {
                if t > max_total {
                    Err(AmountValidationError::ExceedsContractMaximum)
                } else {
                    Ok(t)
                }
            },
        },
    }
}

/// Checks a contract's total against `max_total`.
pub fn validate_contract_total(total: i128, max_total: i128) -> (r: Result<
    (),
    AmountValidationError,
>)
    ensures
        r is Ok <==> total <= max_total,
        r is Err ==> r == Err::<(), AmountValidationError>(
            AmountValidationError::ExceedsContractMaximum,
        ),
{
    if total > max_total {
        Err(AmountValidationError::ExceedsContractMaximum)
    } else {
        Ok(())
    }
}

/// `a + b`, or `None` where the sum does not fit in an `i128`.
pub fn safe_add_amounts(a: i128, b: i128) -> (r: Option<i128>)
    ensures
        r == (if i128::MIN <= a + b <= i128::MAX {
            Some((a + b) as i128)
        } else {
            None
        }),
{
    a.checked_add(b)
}

/// `a - b`, or `None` where the difference is negative or does not fit in an `i128`.
pub fn safe_subtract_amounts(a: i128, b: i128) -> (r: Option<i128>)
    ensures
        r == (if 0 <= a - b <= i128::MAX {
            Some((a - b) as i128)
        } else {
            None
        }),
{
    match a.checked_sub(b) {
        Some(d) => {
            if d < 0 {
                None
            } else {
                Some(d)
            }
        },
        None => None,
    }
}

} // verus!
