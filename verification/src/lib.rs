//! Milestone escrow: contract creation, funding, approval-gated releases,
//! refunds, dispute payouts, reputation and governance controls, all as
//! verified state transitions over plain values.
pub mod amount_validation;
pub mod approvals;
pub mod dispute;
pub mod escrow;
pub mod laws;
pub mod model;
pub mod ttl;
pub mod types;

pub use amount_validation::{
    safe_add_amounts, safe_subtract_amounts, validate_contract_total, validate_deposit_amount,
    validate_milestone_amounts, validate_single_amount, AmountValidationError,
    MAX_MILESTONES, MAX_SINGLE_AMOUNT_STROOPS, MAX_TOTAL_ESCROW_STROOPS, MIN_POSITIVE_AMOUNT,
};
pub use approvals::{
    approve_milestone, check_approvals, clear_approvals, read_live_approvals, StoredApprovals,
};
pub use dispute::{final_status_after_resolution, resolution_payouts, DisputeResolution};
pub use escrow::{calculate_protocol_fee, Escrow, EscrowRecord};
pub use model::{ReputationEntry, MAX_PROTOCOL_FEE_BPS, MAX_RATING};
pub use ttl::{compute_expiry, PENDING_APPROVAL_TTL_LEDGERS};
pub use types::{
    Address, Contract, ContractStatus, DataKey, Error, EscrowError, Milestone, MilestoneApprovals,
    ReleaseAuthorization, Reputation,
};
