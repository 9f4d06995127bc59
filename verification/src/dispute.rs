//! Dispute outcomes: how an arbiter's resolution splits what a contract
//! still holds between client and freelancer, and the status that follows.
use vstd::prelude::*;
use crate::types::{Contract, ContractStatus, Error};

verus! {

/// Resolution selected by the assigned arbiter for a disputed escrow.
#[derive(Clone, Copy, Debug, PartialEq, Eq, Structural)]
pub enum DisputeResolution {
    /// Refund all remaining escrowed funds to the client.
    FullRefund,
    /// Refund 70% of the remaining balance to the client and release 30% to the freelancer.
    PartialRefund,
    /// Release all remaining escrowed funds to the freelancer.
    FullPayout,
    /// Apply a custom split (client amount, freelancer amount) of the remaining balance.
    Split(i128, i128),
}

impl DisputeResolution {
    /// The numeric code of the resolution kind.
    pub fn code(&self) -> (c: u32)
        ensures
            c == match *self {
                DisputeResolution::FullRefund => 0u32,
                DisputeResolution::PartialRefund => 1u32,
                DisputeResolution::FullPayout => 2u32,
                DisputeResolution::Split(_, _) => 3u32,
            },
    {
        match self {
            DisputeResolution::FullRefund => 0,
            DisputeResolution::PartialRefund => 1,
            DisputeResolution::FullPayout => 2,
            DisputeResolution::Split(_, _) => 3,
        }
    }
}

/// Whether an integer fits in an `i128`.
pub open spec fn fits_i128(x: int) -> bool {
    i128::MIN <= x <= i128::MAX
}

/// Why a resolution cannot be paid out of `c`, if it cannot.
pub open spec fn resolution_error(c: Contract, resolution: DisputeResolution) -> Option<Error> {
    if !fits_i128(c.funded_amount - c.released_amount) || !fits_i128(c.available()) || c.available() < 0 {
        Some(Error::AccountingInvariantViolated)
    } else {
        match resolution {
            DisputeResolution::PartialRefund => if c.available() * 30 > i128::MAX {
                Some(Error::PotentialOverflow)
            } else {
                None
            },
            DisputeResolution::Split(client_amount, freelancer_amount) => {
                if client_amount < 0 || freelancer_amount < 0 {
                    Some(Error::InvalidDisputeSplit)
                } else if client_amount + freelancer_amount > i128::MAX {
                    Some(Error::PotentialOverflow)
                } else if client_amount + freelancer_amount != c.available() {
                    Some(Error::InvalidDisputeSplit)
                } else {
                    None
                }
            },
            _ => None,
        }
    }
}

/// The (client, freelancer) payouts of a resolution of `c`.
pub open spec fn resolution_split(c: Contract, resolution: DisputeResolution) -> (int, int) {
    let available = c.available();
    match resolution {
        DisputeResolution::FullRefund => (available, 0),
        DisputeResolution::PartialRefund => (available - available * 30 / 100, available * 30 / 100),
        DisputeResolution::FullPayout => (0, available),
        DisputeResolution::Split(client_amount, freelancer_amount) => (
            client_amount as int,
            freelancer_amount as int,
        ),
    }
}

/// The (client, freelancer) payouts of `resolution`: together they are
/// exactly what the contract still holds, and neither is negative.
pub fn resolution_payouts(contract: &Contract, resolution: &DisputeResolution) -> (r: Result<
    (i128, i128),
    Error,
>)
    ensures
        match resolution_error(*contract, *resolution) {
            Some(e) => r == Err::<(i128, i128), Error>(e),
            None => r is Ok && r->Ok_0.0 == resolution_split(*contract, *resolution).0
                && r->Ok_0.1 == resolution_split(*contract, *resolution).1,
        },
        r is Ok ==> {
            &&& r->Ok_0.0 >= 0
            &&& r->Ok_0.1 >= 0
            &&& r->Ok_0.0 + r->Ok_0.1 == contract.available()
        },
{
    let available = match contract.funded_amount.checked_sub(contract.released_amount) {
        Some(v) => match v.checked_sub(contract.refunded_amount) {
            Some(a) => a,
            None => return Err(Error::AccountingInvariantViolated),
        },
        None => return Err(Error::AccountingInvariantViolated),
    };
    if available < 0 {
        return Err(Error::AccountingInvariantViolated);
    }
    match resolution {
        DisputeResolution::FullRefund => Ok((available, 0)),
        DisputeResolution::PartialRefund => {
            let freelancer_payout = match available.checked_mul(30) {
                Some(v) => v / 100,
                None => return Err(Error::PotentialOverflow),
            };
            Ok((available - freelancer_payout, freelancer_payout))
        },
        DisputeResolution::FullPayout => Ok((0, available)),
        DisputeResolution::Split(client_amount, freelancer_amount) => {
            if *client_amount < 0 || *freelancer_amount < 0 {
                return Err(Error::InvalidDisputeSplit);
            }
            let total = match client_amount.checked_add(*freelancer_amount) {
                Some(t) => t,
                None => return Err(Error::PotentialOverflow),
            };
            if total != available {
                return Err(Error::InvalidDisputeSplit);
            }
            Ok((*client_amount, *freelancer_amount))
        },
    }
}

/// The status a contract ends in once a resolution has been paid out:
/// `Refunded` where everything deposited went back to the client,
/// `Completed` otherwise.
pub fn final_status_after_resolution(contract: &Contract) -> (s: ContractStatus)
    ensures
        s == (if contract.refunded_amount == contract.funded_amount {
            ContractStatus::Refunded
        } else {
            ContractStatus::Completed
        }),
{
    if contract.refunded_amount == contract.funded_amount {
        ContractStatus::Refunded
    } else {
        ContractStatus::Completed
    }
}

} // verus!
