//! Milestone approvals: who may approve and release under each
//! authorization mode, when approvals suffice, and approval expiry.
use vstd::prelude::*;
use crate::types::{Address, Contract, ContractStatus, Error, Milestone, MilestoneApprovals, ReleaseAuthorization};
use crate::ttl::{compute_expiry, PENDING_APPROVAL_BUMP_THRESHOLD, PENDING_APPROVAL_TTL_LEDGERS};

verus! {

/// Approvals as kept between calls: the flags and the last ledger on which
/// they are still live.
#[derive(Clone, Copy, Debug, PartialEq, Eq, Structural)]
pub struct StoredApprovals {
    pub approvals: MilestoneApprovals,
    pub live_until_ledger: u32,
}

/// No party has approved yet.
pub open spec fn no_approvals() -> MilestoneApprovals {
    MilestoneApprovals { client_approved: false, freelancer_approved: false, arbiter_approved: false }
}

/// The approvals that still count on `ledger`: an expired record counts as absent.
pub open spec fn live_approvals(stored: Option<StoredApprovals>, ledger: u32) -> Option<MilestoneApprovals> {
    match stored {
        Some(s) => if ledger <= s.live_until_ledger {
            Some(s.approvals)
        } else {
            None
        },
        None => None,
    }
}

/// Whether `caller` may approve milestones of `c`: it must be a participant
/// and hold a role the release mode names.
pub open spec fn may_approve(c: Contract, caller: Address) -> bool {
    let is_client = caller == c.client;
    let is_freelancer = caller == c.freelancer;
    let is_arbiter = c.is_arbiter(caller);
    &&& is_client || is_freelancer || is_arbiter
    &&& match c.release_authorization {
        ReleaseAuthorization::ClientOnly => is_client,
        ReleaseAuthorization::ArbiterOnly => is_arbiter,
        ReleaseAuthorization::ClientAndArbiter => is_client || is_arbiter,
        ReleaseAuthorization::MultiSig => is_client || is_freelancer,
    }
}

/// Whether `caller` may release milestones of `c`.
pub open spec fn may_release(c: Contract, caller: Address) -> bool {
    let is_client = caller == c.client;
    let is_freelancer = caller == c.freelancer;
    let is_arbiter = c.is_arbiter(caller);
    match c.release_authorization {
        ReleaseAuthorization::ClientOnly => is_client,
        ReleaseAuthorization::ArbiterOnly => is_arbiter,
        ReleaseAuthorization::ClientAndArbiter => is_client || is_arbiter,
        ReleaseAuthorization::MultiSig => is_client || is_freelancer,
    }
}

/// Whether the approvals are enough to release under `mode`.
pub open spec fn approvals_sufficient(mode: ReleaseAuthorization, a: MilestoneApprovals) -> bool {
    match mode {
        ReleaseAuthorization::ClientOnly => a.client_approved,
        ReleaseAuthorization::ArbiterOnly => a.arbiter_approved,
        ReleaseAuthorization::ClientAndArbiter => a.client_approved || a.arbiter_approved,
        ReleaseAuthorization::MultiSig => a.client_approved && a.freelancer_approved,
    }
}

/// Whether the caller's own flag is already set.
pub open spec fn already_approved(c: Contract, caller: Address, a: MilestoneApprovals) -> bool {
    if caller == c.client {
        a.client_approved
    } else if caller == c.freelancer {
        a.freelancer_approved
    } else {
        a.arbiter_approved
    }
}

/// The approvals with the caller's flag set.
pub open spec fn with_approval(c: Contract, caller: Address, a: MilestoneApprovals) -> MilestoneApprovals {
    if caller == c.client {
        MilestoneApprovals { client_approved: true, ..a }
    } else if caller == c.freelancer {
        MilestoneApprovals { freelancer_approved: true, ..a }
    } else {
        MilestoneApprovals { arbiter_approved: true, ..a }
    }
}

/// Why `caller` may not approve milestone `index`, given the live approvals.
pub open spec fn approve_error(
    c: Contract,
    milestones: Seq<Milestone>,
    index: u32,
    caller: Address,
    current: Option<MilestoneApprovals>,
) -> Option<Error> {
    if c.status != ContractStatus::Funded {
        Some(Error::InvalidState)
    } else if index >= milestones.len() {
        Some(Error::IndexOutOfBounds)
    } else if milestones[index as int].released {
        Some(Error::MilestoneAlreadyReleased)
    } else if !may_approve(c, caller) {
        Some(Error::UnauthorizedRole)
    } else if already_approved(c, caller, current.unwrap_or(no_approvals())) {
        Some(Error::AlreadyApproved)
    } else {
        None
    }
}

/// The approvals that `stored` still holds on `ledger`.
pub fn read_live_approvals(stored: &Option<StoredApprovals>, ledger: u32) -> (r: Option<MilestoneApprovals>)
    ensures
        r == live_approvals(*stored, ledger),
{
    match stored {
        Some(s) => {
            if ledger <= s.live_until_ledger {
                Some(s.approvals)
            } else {
                None
            }
        },
        None => None,
    }
}

/// Records `caller`'s approval of milestone `milestone_index` on top of the
/// live approvals `current`, and returns the updated flags.
pub fn approve_milestone(
    contract: &Contract,
    milestones: &Vec<Milestone>,
    milestone_index: u32,
    caller: Address,
    current: Option<MilestoneApprovals>,
) -> (r: Result<MilestoneApprovals, Error>)
    ensures
        match approve_error(*contract, milestones@, milestone_index, caller, current) {
            Some(e) => r == Err::<MilestoneApprovals, Error>(e),
            None => r == Ok::<MilestoneApprovals, Error>(
                with_approval(*contract, caller, current.unwrap_or(no_approvals())),
            ),
        },
{
    if contract.status != ContractStatus::Funded {
        return Err(Error::InvalidState);
    }
    if milestone_index as usize >= milestones.len() {
        return Err(Error::IndexOutOfBounds);
    }
    if milestones[milestone_index as usize].released {
        return Err(Error::MilestoneAlreadyReleased);
    }
    let is_client = caller == contract.client;
    let is_freelancer = caller == contract.freelancer;
    let is_arbiter = match contract.arbiter {
        Some(a) => caller == a,
        None => false,
    };
    if !is_client && !is_freelancer && !is_arbiter {
        return Err(Error::UnauthorizedRole);
    }
    let allowed = match contract.release_authorization {
        ReleaseAuthorization::ClientOnly => is_client,
        ReleaseAuthorization::ArbiterOnly => is_arbiter,
        ReleaseAuthorization::ClientAndArbiter => is_client || is_arbiter,
        ReleaseAuthorization::MultiSig => is_client || is_freelancer,
    };
    if !allowed {
        return Err(Error::UnauthorizedRole);
    }
    let mut approvals = match current {
        Some(a) => a,
        None => MilestoneApprovals {
            client_approved: false,
            freelancer_approved: false,
            arbiter_approved: false,
        },
    };
    if is_client {
        if approvals.client_approved {
            return Err(Error::AlreadyApproved);
        }
        approvals.client_approved = true;
    } else if is_freelancer {
        if approvals.freelancer_approved {
            return Err(Error::AlreadyApproved);
        }
        approvals.freelancer_approved = true;
    } else {
        if approvals.arbiter_approved {
            return Err(Error::AlreadyApproved);
        }
        approvals.arbiter_approved = true;
    }
    Ok(approvals)
}

/// Why a release under `mode` is refused on `ledger`, given the stored
/// approval record: `InsufficientApprovals` when there is none or it lacks a
/// required approval, `ApprovalExpired` when it existed but is no longer live.
pub open spec fn approvals_error(mode: ReleaseAuthorization, stored: Option<StoredApprovals>, ledger: u32) -> Option<Error> {
    match stored {
        None => Some(Error::InsufficientApprovals),
        Some(s) => if ledger > s.live_until_ledger {
            Some(Error::ApprovalExpired)
        } else if !approvals_sufficient(mode, s.approvals) {
            Some(Error::InsufficientApprovals)
        } else {
            None
        },
    }
}

/// Whether the stored approvals allow a release under the contract's mode on
/// `ledger`: a missing record or a missing approval is refused with
/// `InsufficientApprovals`, a record that has expired with `ApprovalExpired`.
pub fn check_approvals(contract: &Contract, stored: &Option<StoredApprovals>, ledger: u32) -> (r: Result<bool, Error>)
    ensures
        match approvals_error(contract.release_authorization, *stored, ledger) {
            Some(e) => r == Err::<bool, Error>(e),
            None => r == Ok::<bool, Error>(true),
        },
{
    let a = match stored {
        Some(s) => {
            if ledger > s.live_until_ledger {
                return Err(Error::ApprovalExpired);
            }
            s.approvals
        },
        None => return Err(Error::InsufficientApprovals),
    };
    let sufficient = match contract.release_authorization {
        ReleaseAuthorization::ClientOnly => a.client_approved,
        ReleaseAuthorization::ArbiterOnly => a.arbiter_approved,
        ReleaseAuthorization::ClientAndArbiter => a.client_approved || a.arbiter_approved,
        ReleaseAuthorization::MultiSig => a.client_approved && a.freelancer_approved,
    };
    if sufficient {
        Ok(true)
    } else {
        Err(Error::InsufficientApprovals)
    }
}

/// The last ledger on which `ledger + ttl` stays live, stopping at `u32::MAX`.
pub open spec fn expiry_after(ledger: u32, ttl: u32) -> u32 {
    if ledger + ttl <= u32::MAX {
        (ledger + ttl) as u32
    } else {
        u32::MAX
    }
}

/// Until when an approval record written on `ledger` stays live. A record
/// that is still live keeps its expiry unless at most
/// `PENDING_APPROVAL_BUMP_THRESHOLD` ledgers of it remain; otherwise (a new
/// record, or one about to expire) it lives `PENDING_APPROVAL_TTL_LEDGERS`
/// ledgers from `ledger`.
pub open spec fn approval_live_until(stored: Option<StoredApprovals>, ledger: u32) -> u32 {
    match stored {
        Some(s) => if ledger <= s.live_until_ledger && s.live_until_ledger - ledger
            > PENDING_APPROVAL_BUMP_THRESHOLD {
            s.live_until_ledger
        } else {
            expiry_after(ledger, PENDING_APPROVAL_TTL_LEDGERS)
        },
        None => expiry_after(ledger, PENDING_APPROVAL_TTL_LEDGERS),
    }
}

/// Computes `approval_live_until` for a record about to be written.
pub fn next_live_until(stored: &Option<StoredApprovals>, ledger: u32) -> (e: u32)
    ensures
        e == approval_live_until(*stored, ledger),
        ledger <= e,
        stored.is_some() && ledger <= stored.unwrap().live_until_ledger
            && stored.unwrap().live_until_ledger - ledger > PENDING_APPROVAL_BUMP_THRESHOLD ==> e
            == stored.unwrap().live_until_ledger,
        stored.is_none() || ledger > stored.unwrap().live_until_ledger
            || stored.unwrap().live_until_ledger - ledger <= PENDING_APPROVAL_BUMP_THRESHOLD ==> e == (if ledger + PENDING_APPROVAL_TTL_LEDGERS
            <= u32::MAX {
            ledger + PENDING_APPROVAL_TTL_LEDGERS
        } else {
            u32::MAX as int
        }),
{
    match stored {
        Some(s) => {
            if ledger <= s.live_until_ledger && s.live_until_ledger - ledger
                > PENDING_APPROVAL_BUMP_THRESHOLD {
                return s.live_until_ledger;
            }
        },
        None => {},
    }
    compute_expiry(ledger, PENDING_APPROVAL_TTL_LEDGERS)
}

/// Drops the approval record of milestone `milestone_index`, so that it
/// cannot be used again; an index without a record is left as it is.
pub fn clear_approvals(approvals: &mut Vec<Option<StoredApprovals>>, milestone_index: u32)
    ensures
        final(approvals)@ == (if milestone_index < old(approvals)@.len() {
            old(approvals)@.update(milestone_index as int, None)
        } else {
            old(approvals)@
        }),
{
    if (milestone_index as usize) < approvals.len() {
        approvals.set(milestone_index as usize, None);
    }
}

} // verus!
