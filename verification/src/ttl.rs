//! Time-to-live policy, in ledgers (about five seconds each), for pending
//! approvals and persistent contract data.
use vstd::prelude::*;

verus! {

/// Ledgers closed per day.
pub const LEDGERS_PER_DAY: u32 = 17_280;

/// Pending approvals live for seven days.
pub const PENDING_APPROVAL_TTL_LEDGERS: u32 = 120_960;
/// A pending approval is bumped once less than a day remains.
pub const PENDING_APPROVAL_BUMP_THRESHOLD: u32 = 17_280;

/// Pending client migrations live for twenty-one days.
pub const PENDING_MIGRATION_TTL_LEDGERS: u32 = 362_880;
/// A pending migration is bumped once less than three days remain.
pub const PENDING_MIGRATION_BUMP_THRESHOLD: u32 = 51_840;

/// Contract data lives for ninety days and is bumped below thirty.
pub const CONTRACT_TTL_LEDGERS: u32 = 1_555_200;
pub const CONTRACT_TTL_THRESHOLD: u32 = 518_400;
pub const MILESTONE_TTL_LEDGERS: u32 = 1_555_200;
pub const MILESTONE_TTL_THRESHOLD: u32 = 518_400;
pub const NEXT_CONTRACT_ID_TTL_LEDGERS: u32 = 1_555_200;
pub const NEXT_CONTRACT_ID_TTL_THRESHOLD: u32 = 518_400;

/// The last ledger on which an entry written on `current_sequence` with a
/// time-to-live of `ttl_ledgers` is still live; it stops at `u32::MAX`.
pub fn compute_expiry(current_sequence: u32, ttl_ledgers: u32) -> (e: u32)
    ensures
        e == (if current_sequence + ttl_ledgers <= u32::MAX {
            (current_sequence + ttl_ledgers) as u32
        } else {
            u32::MAX
        }),
{
    current_sequence.saturating_add(ttl_ledgers)
}

/// The relations between the time-to-live constants.
pub proof fn ttl_constants_are_consistent()
    ensures
        PENDING_APPROVAL_TTL_LEDGERS == LEDGERS_PER_DAY * 7,
        PENDING_APPROVAL_BUMP_THRESHOLD == LEDGERS_PER_DAY,
        PENDING_MIGRATION_TTL_LEDGERS == LEDGERS_PER_DAY * 21,
        PENDING_MIGRATION_BUMP_THRESHOLD == LEDGERS_PER_DAY * 3,
        CONTRACT_TTL_LEDGERS == LEDGERS_PER_DAY * 90,
        CONTRACT_TTL_THRESHOLD == LEDGERS_PER_DAY * 30,
        MILESTONE_TTL_LEDGERS == CONTRACT_TTL_LEDGERS,
        NEXT_CONTRACT_ID_TTL_THRESHOLD == CONTRACT_TTL_THRESHOLD,
        PENDING_APPROVAL_BUMP_THRESHOLD < PENDING_APPROVAL_TTL_LEDGERS,
        CONTRACT_TTL_THRESHOLD < CONTRACT_TTL_LEDGERS,
{
}

} // verus!
