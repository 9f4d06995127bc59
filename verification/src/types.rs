//! The escrow's data: participants, contracts, milestones, approvals,
//! reputation, storage keys and errors.
use vstd::prelude::*;

verus! {

/// A participant, identified by the account number the host assigns to it.
#[derive(Clone, Copy, Debug, PartialEq, Eq, Structural, Hash)]
pub struct Address(pub u64);

/// Keys under which the host persists escrow state.
#[derive(Clone, Copy, Debug, PartialEq, Eq, Structural)]
pub enum DataKey {
    Client,
    Freelancer,
    Milestones,
    Initialized,
    Contract(u32),
    NextContractId,
    /// Approval flags of (contract id, milestone index), kept with a ledger expiry.
    MilestoneApprovals(u32, u32),
    Admin,
    Paused,
    Emergency,
    ProtocolFeeBps,
    AccumulatedProtocolFees,
    ReputationIssued(u32),
    Reputation(Address),
}

/// Every way an escrow operation can be refused.
#[derive(Clone, Copy, Debug, PartialEq, Eq, Structural)]
pub enum Error {
    AlreadyInitialized,
    NotInitialized,
    IndexOutOfBounds,
    AlreadyReleased,
    InvalidStatusTransition,
    EmptyRefundRequest,
    DuplicateMilestoneInRefund,
    AlreadyRefunded,
    InsufficientFunds,
    ContractNotFound,
    UnauthorizedRole,
    MissingArbiter,
    InvalidArbiter,
    InvalidParticipants,
    AmountMustBePositive,
    InvalidState,
    MilestoneAlreadyReleased,
    AlreadyApproved,
    ApprovalExpired,
    InsufficientApprovals,
    FreelancerMismatch,
    InvalidRating,
    ReputationAlreadyIssued,
    ContractPaused,
    EmergencyActive,
    EmptyMilestones,
    InvalidMilestoneAmount,
    TooManyMilestones,
    PotentialOverflow,
    FundingExceedsRequired,
    AccountingInvariantViolated,
    InvalidDisputeSplit,
    InsufficientAccumulatedFees,
    InvalidFeeRate,
    TotalExceedsMaxEscrow,
    InvalidMilestone,
}

/// The same error type under the name the contract's callers use.
pub type EscrowError = Error;

impl Error {
    /// The numeric code the host reports for this error. The milestone
    /// errors `EmptyMilestones` (2), `InvalidMilestoneAmount` (3) and
    /// `InvalidMilestone` (5) keep the numbers of the contract's own
    /// validation errors, which `NotInitialized`, `IndexOutOfBounds` and
    /// `InvalidStatusTransition` share.
    pub fn code(&self) -> (c: u32)
        ensures
            c == match *self {
                Error::AlreadyInitialized => 1u32,
                Error::NotInitialized => 2u32,
                Error::IndexOutOfBounds => 3u32,
                Error::AlreadyReleased => 4u32,
                Error::InvalidStatusTransition => 5u32,
                Error::EmptyRefundRequest => 6u32,
                Error::DuplicateMilestoneInRefund => 7u32,
                Error::AlreadyRefunded => 8u32,
                Error::InsufficientFunds => 9u32,
                Error::ContractNotFound => 10u32,
                Error::UnauthorizedRole => 11u32,
                Error::MissingArbiter => 12u32,
                Error::InvalidArbiter => 13u32,
                Error::InvalidParticipants => 14u32,
                Error::AmountMustBePositive => 15u32,
                Error::InvalidState => 16u32,
                Error::MilestoneAlreadyReleased => 17u32,
                Error::AlreadyApproved => 18u32,
                Error::ApprovalExpired => 19u32,
                Error::InsufficientApprovals => 20u32,
                Error::FreelancerMismatch => 21u32,
                Error::InvalidRating => 22u32,
                Error::ReputationAlreadyIssued => 23u32,
                Error::ContractPaused => 24u32,
                Error::EmergencyActive => 25u32,
                Error::EmptyMilestones => 2u32,
                Error::InvalidMilestoneAmount => 3u32,
                Error::TooManyMilestones => 28u32,
                Error::PotentialOverflow => 29u32,
                Error::FundingExceedsRequired => 30u32,
                Error::AccountingInvariantViolated => 31u32,
                Error::InvalidDisputeSplit => 32u32,
                Error::InsufficientAccumulatedFees => 33u32,
                Error::InvalidFeeRate => 34u32,
                Error::TotalExceedsMaxEscrow => 35u32,
                Error::InvalidMilestone => 5u32,
            },
    {
        match self {
            Error::AlreadyInitialized => 1,
            Error::NotInitialized => 2,
            Error::IndexOutOfBounds => 3,
            Error::AlreadyReleased => 4,
            Error::InvalidStatusTransition => 5,
            Error::EmptyRefundRequest => 6,
            Error::DuplicateMilestoneInRefund => 7,
            Error::AlreadyRefunded => 8,
            Error::InsufficientFunds => 9,
            Error::ContractNotFound => 10,
            Error::UnauthorizedRole => 11,
            Error::MissingArbiter => 12,
            Error::InvalidArbiter => 13,
            Error::InvalidParticipants => 14,
            Error::AmountMustBePositive => 15,
            Error::InvalidState => 16,
            Error::MilestoneAlreadyReleased => 17,
            Error::AlreadyApproved => 18,
            Error::ApprovalExpired => 19,
            Error::InsufficientApprovals => 20,
            Error::FreelancerMismatch => 21,
            Error::InvalidRating => 22,
            Error::ReputationAlreadyIssued => 23,
            Error::ContractPaused => 24,
            Error::EmergencyActive => 25,
            Error::EmptyMilestones => 2,
            Error::InvalidMilestoneAmount => 3,
            Error::TooManyMilestones => 28,
            Error::PotentialOverflow => 29,
            Error::FundingExceedsRequired => 30,
            Error::AccountingInvariantViolated => 31,
            Error::InvalidDisputeSplit => 32,
            Error::InsufficientAccumulatedFees => 33,
            Error::InvalidFeeRate => 34,
            Error::TotalExceedsMaxEscrow => 35,
            Error::InvalidMilestone => 5,
        }
    }
}

/// Where an escrow contract is in its life.
#[derive(Clone, Copy, Debug, PartialEq, Eq, Structural)]
pub enum ContractStatus {
    Created,
    Funded,
    Completed,
    Disputed,
    Refunded,
}

impl ContractStatus {
    /// The numeric code the host stores for this status.
    pub fn code(&self) -> (c: u32)
        ensures
            c == match *self {
                ContractStatus::Created => 0u32,
                ContractStatus::Funded => 1u32,
                ContractStatus::Completed => 2u32,
                ContractStatus::Disputed => 3u32,
                ContractStatus::Refunded => 4u32,
            },
    {
        match self {
            ContractStatus::Created => 0,
            ContractStatus::Funded => 1,
            ContractStatus::Completed => 2,
            ContractStatus::Disputed => 3,
            ContractStatus::Refunded => 4,
        }
    }
}

/// Who may approve and release milestones.
#[derive(Clone, Copy, Debug, PartialEq, Eq, Structural)]
pub enum ReleaseAuthorization {
    /// Only the client approves and releases.
    ClientOnly,
    /// The client or the arbiter approves and releases.
    ClientAndArbiter,
    /// Only the arbiter approves and releases.
    ArbiterOnly,
    /// Client and freelancer must both approve; either of them releases.
    MultiSig,
}

/// One milestone: its amount and whether it has been paid out or refunded.
#[derive(Clone, Copy, Debug, PartialEq, Eq, Structural)]
pub struct Milestone {
    pub amount: i128,
    pub released: bool,
    pub refunded: bool,
}

/// The metadata and balances of one escrow contract.
#[derive(Clone, Copy, Debug, PartialEq, Eq, Structural)]
pub struct Contract {
    pub client: Address,
    pub freelancer: Address,
    pub arbiter: Option<Address>,
    pub status: ContractStatus,
    pub funded_amount: i128,
    pub released_amount: i128,
    pub refunded_amount: i128,
    pub release_authorization: ReleaseAuthorization,
}

/// Which parties have approved a milestone's release.
#[derive(Clone, Copy, Debug, PartialEq, Eq, Structural)]
pub struct MilestoneApprovals {
    pub client_approved: bool,
    pub freelancer_approved: bool,
    pub arbiter_approved: bool,
}

/// A freelancer's accumulated reputation.
#[derive(Clone, Copy, Debug, PartialEq, Eq, Structural)]
pub struct Reputation {
    pub completed_contracts: u64,
    pub total_rating: u64,
    pub last_rating: u32,
}

impl Contract {
    /// What the contract still holds: funded, not yet released or refunded.
    pub open spec fn available(self) -> int {
        self.funded_amount - self.released_amount - self.refunded_amount
    }

    /// Whether `a` is the contract's arbiter.
    pub open spec fn is_arbiter(self, a: Address) -> bool {
        self.arbiter == Some(a)
    }
}

} // verus!
