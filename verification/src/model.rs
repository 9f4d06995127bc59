//! The mathematical model of the escrow ledger: abstract records, the
//! well-formedness each keeps, and every operation as a transition from
//! one abstract state to the next together with its result.
use vstd::prelude::*;
use crate::amount_validation::{amounts_sum, MAX_MILESTONES, MAX_TOTAL_ESCROW_STROOPS};
use crate::approvals::{
    approval_live_until, approvals_error, approve_error, live_approvals, may_release,
    no_approvals, with_approval, StoredApprovals,
};
use crate::types::{
    Address, Contract, ContractStatus, Error, Milestone, ReleaseAuthorization, Reputation,
};

verus! {

/// The largest protocol fee rate: 10000 basis points, that is 100%.
pub const MAX_PROTOCOL_FEE_BPS: u32 = 10_000;

/// The highest rating a freelancer can receive.
pub const MAX_RATING: u32 = 5;

// ---------------------------------------------------------------------------
// Sums over milestones
// ---------------------------------------------------------------------------

/// Sum of `f` over the milestones.
pub open spec fn milestone_sum(ms: Seq<Milestone>, f: spec_fn(Milestone) -> int) -> int
    decreases ms.len(),
{
    if ms.len() == 0 {
        0
    } else {
        milestone_sum(ms.drop_last(), f) + f(ms.last())
    }
}

pub open spec fn amount_of(m: Milestone) -> int {
    m.amount as int
}

pub open spec fn released_amount_of(m: Milestone) -> int {
    if m.released {
        m.amount as int
    } else {
        0
    }
}

pub open spec fn refunded_amount_of(m: Milestone) -> int {
    if m.refunded {
        m.amount as int
    } else {
        0
    }
}

/// What all milestones together cost.
pub open spec fn total_amount(ms: Seq<Milestone>) -> int {
    milestone_sum(ms, |m: Milestone| amount_of(m))
}

/// What has been paid out to the freelancer.
pub open spec fn released_total(ms: Seq<Milestone>) -> int {
    milestone_sum(ms, |m: Milestone| released_amount_of(m))
}

/// What has gone back to the client.
pub open spec fn refunded_total(ms: Seq<Milestone>) -> int {
    milestone_sum(ms, |m: Milestone| refunded_amount_of(m))
}

/// Every milestone has been released or refunded.
pub open spec fn all_settled(ms: Seq<Milestone>) -> bool {
    forall|i: int| 0 <= i < ms.len() ==> (#[trigger] ms[i]).released || ms[i].refunded
}

/// Some milestone has been released.
pub open spec fn some_released(ms: Seq<Milestone>) -> bool {
    exists|i: int| 0 <= i < ms.len() && (#[trigger] ms[i]).released
}

/// Some milestone has been refunded.
pub open spec fn some_refunded(ms: Seq<Milestone>) -> bool {
    exists|i: int| 0 <= i < ms.len() && (#[trigger] ms[i]).refunded
}

/// Changing one milestone changes a sum by the difference at that milestone.
pub proof fn lemma_sum_update(ms: Seq<Milestone>, i: int, m: Milestone, f: spec_fn(Milestone) -> int)
    requires
        0 <= i < ms.len(),
    ensures
        milestone_sum(ms.update(i, m), f) == milestone_sum(ms, f) - f(ms[i]) + f(m),
    decreases ms.len(),
{
    if i == ms.len() - 1 {
        assert(ms.update(i, m).drop_last() =~= ms.drop_last());
    } else {
        lemma_sum_update(ms.drop_last(), i, m, f);
        assert(ms.update(i, m).drop_last() =~= ms.drop_last().update(i, m));
    }
}

/// A sum of a non-negative function is at least each of its terms.
pub proof fn lemma_term_le_sum(ms: Seq<Milestone>, i: int, f: spec_fn(Milestone) -> int)
    requires
        0 <= i < ms.len(),
        forall|j: int| 0 <= j < ms.len() ==> f(#[trigger] ms[j]) >= 0,
    ensures
        0 <= f(ms[i]) <= milestone_sum(ms, f),
    decreases ms.len(),
{
    lemma_sum_nonneg(ms.drop_last(), f);
    if i < ms.len() - 1 {
        assert(ms.drop_last()[i] == ms[i]);
        lemma_term_le_sum(ms.drop_last(), i, f);
    }
}

/// A sum of a non-negative function is non-negative.
pub proof fn lemma_sum_nonneg(ms: Seq<Milestone>, f: spec_fn(Milestone) -> int)
    requires
        forall|j: int| 0 <= j < ms.len() ==> f(#[trigger] ms[j]) >= 0,
    ensures
        milestone_sum(ms, f) >= 0,
    decreases ms.len(),
{
    if ms.len() > 0 {
        assert forall|j: int| 0 <= j < ms.drop_last().len() implies f(
            #[trigger] ms.drop_last()[j],
        ) >= 0 by {
            assert(ms.drop_last()[j] == ms[j]);
        }
        lemma_sum_nonneg(ms.drop_last(), f);
    }
}

/// The milestone amounts, summed in order, as a sum over milestones.
pub proof fn lemma_amounts_sum_is_total(amounts: Seq<i128>, ms: Seq<Milestone>)
    requires
        amounts.len() == ms.len(),
        forall|i: int| 0 <= i < ms.len() ==> (#[trigger] ms[i]).amount == amounts[i],
    ensures
        amounts_sum(amounts) == total_amount(ms),
    decreases ms.len(),
{
    if ms.len() > 0 {
        lemma_amounts_sum_is_total(amounts.drop_last(), ms.drop_last());
    }
}

// ---------------------------------------------------------------------------
// Abstract state
// ---------------------------------------------------------------------------

/// One escrow contract as the model sees it.
#[verifier::ext_equal]
pub struct RecordView {
    pub contract: Contract,
    pub milestones: Seq<Milestone>,
    pub approvals: Seq<Option<StoredApprovals>>,
    pub reputation_issued: bool,
}

/// A freelancer and the reputation recorded for it.
#[derive(Clone, Copy, Debug, PartialEq, Eq, Structural)]
pub struct ReputationEntry {
    pub freelancer: Address,
    pub reputation: Reputation,
}

/// The whole escrow ledger as the model sees it. The contract with id `n`
/// is `records[n - 1]`.
#[verifier::ext_equal]
pub struct EscrowView {
    pub admin: Option<Address>,
    pub paused: bool,
    pub emergency: bool,
    pub protocol_fee_bps: u32,
    pub accumulated_protocol_fees: i128,
    pub records: Seq<RecordView>,
    pub reputations: Seq<ReputationEntry>,
}

/// Client, freelancer and arbiter are distinct, and modes that need an
/// arbiter have one.
pub open spec fn participants_valid(c: Contract) -> bool {
    &&& c.client != c.freelancer
    &&& c.arbiter != Some(c.client)
    &&& c.arbiter != Some(c.freelancer)
    &&& requires_arbiter(c.release_authorization) ==> c.arbiter is Some
}

/// Release modes in which the arbiter takes part.
pub open spec fn requires_arbiter(mode: ReleaseAuthorization) -> bool {
    mode == ReleaseAuthorization::ArbiterOnly || mode == ReleaseAuthorization::ClientAndArbiter
}

/// The status matches the balances and the settled milestones.
pub open spec fn status_consistent(c: Contract, ms: Seq<Milestone>) -> bool {
    match c.status {
        ContractStatus::Created => c.funded_amount < total_amount(ms) && !all_settled(ms),
        ContractStatus::Funded => c.funded_amount == total_amount(ms) && !all_settled(ms),
        ContractStatus::Completed => all_settled(ms) && some_released(ms),
        ContractStatus::Refunded => all_settled(ms) && some_refunded(ms),
        ContractStatus::Disputed => false,
    }
}

/// What every stored contract satisfies.
pub open spec fn record_wf(r: RecordView) -> bool {
    let ms = r.milestones;
    let c = r.contract;
    &&& 0 < ms.len() <= MAX_MILESTONES
    &&& forall|i: int|
        0 <= i < ms.len() ==> (#[trigger] ms[i]).amount > 0 && !(ms[i].released && ms[i].refunded)
    &&& total_amount(ms) <= MAX_TOTAL_ESCROW_STROOPS
    &&& c.released_amount == released_total(ms)
    &&& c.refunded_amount == refunded_total(ms)
    &&& 0 <= c.funded_amount <= total_amount(ms)
    &&& c.released_amount + c.refunded_amount <= c.funded_amount
    &&& r.approvals.len() == ms.len()
    &&& participants_valid(c)
    &&& status_consistent(c, ms)
    &&& r.reputation_issued ==> c.status == ContractStatus::Completed
}

/// The balances of a well-formed contract are non-negative and bounded by
/// its total, and each milestone amount is at most that total.
pub proof fn lemma_record_bounds(r: RecordView)
    requires
        record_wf(r),
    ensures
        0 <= r.contract.released_amount,
        0 <= r.contract.refunded_amount,
        r.contract.released_amount + r.contract.refunded_amount <= r.contract.funded_amount,
        r.contract.funded_amount <= total_amount(r.milestones) <= MAX_TOTAL_ESCROW_STROOPS,
        forall|i: int|
            0 <= i < r.milestones.len() ==> 0 < (#[trigger] r.milestones[i]).amount <= total_amount(
                r.milestones,
            ),
{
    let ms = r.milestones;
    lemma_sum_nonneg(ms, |m: Milestone| released_amount_of(m));
    lemma_sum_nonneg(ms, |m: Milestone| refunded_amount_of(m));
    assert forall|i: int| 0 <= i < ms.len() implies 0 < (#[trigger] ms[i]).amount <= total_amount(
        ms,
    ) by {
        lemma_term_le_sum(ms, i, |m: Milestone| amount_of(m));
    }
}

impl EscrowView {
    /// What the whole ledger satisfies between operations.
    pub open spec fn wf(self) -> bool {
        &&& forall|i: int| 0 <= i < self.records.len() ==> record_wf(#[trigger] self.records[i])
        &&& self.protocol_fee_bps <= MAX_PROTOCOL_FEE_BPS
        &&& self.accumulated_protocol_fees >= 0
        &&& self.emergency ==> self.paused
        &&& self.admin is None ==> !self.paused && self.protocol_fee_bps == 0
    }

    /// No contract disappears or changes its number of milestones, and no
    /// released or refunded milestone goes back to unsettled, in `next`.
    pub open spec fn settled_stays_settled(self, next: EscrowView) -> bool {
        &&& self.records.len() <= next.records.len()
        &&& forall|k: int|
            0 <= k < self.records.len() ==> (#[trigger] next.records[k]).milestones.len()
                == self.records[k].milestones.len()
        &&& forall|k: int, i: int|
            0 <= k < self.records.len() && 0 <= i < self.records[k].milestones.len() ==> {
                &&& (#[trigger] self.records[k].milestones[i]).released ==> next.records[k].milestones[i].released
                &&& self.records[k].milestones[i].refunded ==> next.records[k].milestones[i].refunded
            }
    }

    pub open spec fn has_contract(self, id: u32) -> bool {
        1 <= id <= self.records.len()
    }

    pub open spec fn rec(self, id: u32) -> RecordView {
        self.records[id - 1]
    }

    pub open spec fn with_rec(self, id: u32, r: RecordView) -> EscrowView {
        EscrowView { records: self.records.update(id - 1, r), ..self }
    }

    // -----------------------------------------------------------------------
    // Governance
    // -----------------------------------------------------------------------

    pub open spec fn initialize_error(self) -> Option<Error> {
        if self.admin is Some {
            Some(Error::AlreadyInitialized)
        } else {
            None
        }
    }

    pub open spec fn after_initialize(self, admin: Address) -> EscrowView {
        EscrowView { admin: Some(admin), ..self }
    }

    pub open spec fn admin_error(self) -> Option<Error> {
        if self.admin is None {
            Some(Error::NotInitialized)
        } else {
            None
        }
    }

    pub open spec fn unpause_error(self) -> Option<Error> {
        if self.admin is None {
            Some(Error::NotInitialized)
        } else if self.emergency {
            Some(Error::EmergencyActive)
        } else {
            None
        }
    }

    pub open spec fn set_fee_error(self, fee_bps: u32) -> Option<Error> {
        if self.admin is None {
            Some(Error::NotInitialized)
        } else if fee_bps > MAX_PROTOCOL_FEE_BPS {
            Some(Error::InvalidFeeRate)
        } else {
            None
        }
    }

    pub open spec fn withdraw_fees_error(self, caller: Address, amount: i128) -> Option<Error> {
        if self.admin is None {
            Some(Error::NotInitialized)
        } else if self.admin != Some(caller) {
            Some(Error::UnauthorizedRole)
        } else if amount <= 0 {
            Some(Error::AmountMustBePositive)
        } else if amount > self.accumulated_protocol_fees {
            Some(Error::InsufficientAccumulatedFees)
        } else {
            None
        }
    }

    // -----------------------------------------------------------------------
    // Contract creation
    // -----------------------------------------------------------------------

    pub open spec fn create_error(
        self,
        client: Address,
        freelancer: Address,
        arbiter: Option<Address>,
        amounts: Seq<i128>,
        mode: ReleaseAuthorization,
    ) -> Option<Error> {
        if self.paused {
            Some(Error::ContractPaused)
        } else if client == freelancer {
            Some(Error::InvalidParticipants)
        } else if requires_arbiter(mode) && arbiter is None {
            Some(Error::MissingArbiter)
        } else if arbiter == Some(client) || arbiter == Some(freelancer) {
            Some(Error::InvalidArbiter)
        } else if amounts.len() == 0 {
            Some(Error::EmptyMilestones)
        } else if exists|i: int| 0 <= i < amounts.len() && #[trigger] amounts[i] <= 0 {
            Some(Error::InvalidMilestoneAmount)
        } else if amounts.len() > MAX_MILESTONES {
            Some(Error::TooManyMilestones)
        } else if amounts_sum(amounts) > i128::MAX {
            Some(Error::PotentialOverflow)
        } else if amounts_sum(amounts) > MAX_TOTAL_ESCROW_STROOPS {
            Some(Error::TotalExceedsMaxEscrow)
        } else {
            None
        }
    }

    pub open spec fn new_record(
        client: Address,
        freelancer: Address,
        arbiter: Option<Address>,
        amounts: Seq<i128>,
        mode: ReleaseAuthorization,
    ) -> RecordView {
        RecordView {
            contract: Contract {
                client,
                freelancer,
                arbiter,
                status: ContractStatus::Created,
                funded_amount: 0,
                released_amount: 0,
                refunded_amount: 0,
                release_authorization: mode,
            },
            milestones: amounts.map_values(
                |a: i128| Milestone { amount: a, released: false, refunded: false },
            ),
            approvals: Seq::new(amounts.len(), |i: int| None),
            reputation_issued: false,
        }
    }

    pub open spec fn after_create(
        self,
        client: Address,
        freelancer: Address,
        arbiter: Option<Address>,
        amounts: Seq<i128>,
        mode: ReleaseAuthorization,
    ) -> EscrowView {
        EscrowView {
            records: self.records.push(
                EscrowView::new_record(client, freelancer, arbiter, amounts, mode),
            ),
            ..self
        }
    }

    // -----------------------------------------------------------------------
    // Deposits
    // -----------------------------------------------------------------------

    pub open spec fn deposit_error(self, id: u32, caller: Address, amount: i128) -> Option<Error> {
        if self.paused {
            Some(Error::ContractPaused)
        } else if amount <= 0 {
            Some(Error::AmountMustBePositive)
        } else if !self.has_contract(id) {
            Some(Error::ContractNotFound)
        } else if caller != self.rec(id).contract.client {
            Some(Error::UnauthorizedRole)
        } else if self.rec(id).contract.status != ContractStatus::Created {
            Some(Error::InvalidState)
        } else if self.rec(id).contract.funded_amount + amount > total_amount(
            self.rec(id).milestones,
        ) {
            Some(Error::FundingExceedsRequired)
        } else {
            None
        }
    }

    pub open spec fn after_deposit(self, id: u32, amount: i128) -> EscrowView {
        let r = self.rec(id);
        let funded = (r.contract.funded_amount + amount) as i128;
        let status = if funded >= total_amount(r.milestones) {
            ContractStatus::Funded
        } else {
            r.contract.status
        };
        self.with_rec(
            id,
            RecordView {
                contract: Contract { funded_amount: funded, status, ..r.contract },
                ..r
            },
        )
    }

    // -----------------------------------------------------------------------
    // Approvals
    // -----------------------------------------------------------------------

    /// The approvals of milestone `index` that still count on `ledger`.
    pub open spec fn live_approvals_of(self, id: u32, index: u32, ledger: u32) -> Option<
        crate::types::MilestoneApprovals,
    > {
        if index < self.rec(id).approvals.len() {
            live_approvals(self.rec(id).approvals[index as int], ledger)
        } else {
            None
        }
    }

    pub open spec fn approve_error(self, id: u32, caller: Address, index: u32, ledger: u32) -> Option<
        Error,
    > {
        if self.paused {
            Some(Error::ContractPaused)
        } else if !self.has_contract(id) {
            Some(Error::ContractNotFound)
        } else {
            approve_error(
                self.rec(id).contract,
                self.rec(id).milestones,
                index,
                caller,
                self.live_approvals_of(id, index, ledger),
            )
        }
    }

    pub open spec fn after_approve(self, id: u32, caller: Address, index: u32, ledger: u32) -> EscrowView {
        let r = self.rec(id);
        let approvals = with_approval(
            r.contract,
            caller,
            self.live_approvals_of(id, index, ledger).unwrap_or(no_approvals()),
        );
        let live_until = approval_live_until(r.approvals[index as int], ledger);
        self.with_rec(
            id,
            RecordView {
                approvals: r.approvals.update(
                    index as int,
                    Some(StoredApprovals { approvals, live_until_ledger: live_until }),
                ),
                ..r
            },
        )
    }

    // -----------------------------------------------------------------------
    // Releases
    // -----------------------------------------------------------------------

    pub open spec fn release_error(self, id: u32, caller: Address, index: u32, ledger: u32) -> Option<
        Error,
    > {
        let r = self.rec(id);
        if self.paused {
            Some(Error::ContractPaused)
        } else if !self.has_contract(id) {
            Some(Error::ContractNotFound)
        } else if r.contract.status != ContractStatus::Funded {
            Some(Error::InvalidState)
        } else if !may_release(r.contract, caller) {
            Some(Error::UnauthorizedRole)
        } else if index >= r.milestones.len() {
            Some(Error::InvalidMilestone)
        } else if r.milestones[index as int].released {
            Some(Error::MilestoneAlreadyReleased)
        } else if approvals_error(r.contract.release_authorization, r.approvals[index as int], ledger)
            is Some {
            approvals_error(r.contract.release_authorization, r.approvals[index as int], ledger)
        } else if r.milestones[index as int].refunded {
            Some(Error::AlreadyRefunded)
        } else if r.contract.available() < r.milestones[index as int].amount {
            Some(Error::InsufficientFunds)
        } else {
            None
        }
    }

    /// The protocol fee collected on releasing milestone `index` of contract `id`.
    pub open spec fn release_fee(self, id: u32, index: u32) -> int {
        protocol_fee(self.rec(id).milestones[index as int].amount as int, self.protocol_fee_bps as int)
    }

    pub open spec fn after_release(self, id: u32, index: u32) -> EscrowView {
        let r = self.rec(id);
        let m = r.milestones[index as int];
        let ms = r.milestones.update(index as int, Milestone { released: true, ..m });
        let status = if all_settled(ms) {
            ContractStatus::Completed
        } else {
            r.contract.status
        };
        let new_rec = RecordView {
            contract: Contract {
                released_amount: (r.contract.released_amount + m.amount) as i128,
                status,
                ..r.contract
            },
            milestones: ms,
            approvals: r.approvals.update(index as int, None),
            ..r
        };
        EscrowView {
            accumulated_protocol_fees: (self.accumulated_protocol_fees + self.release_fee(id, index)) as i128,
            ..self.with_rec(id, new_rec)
        }
    }

    // -----------------------------------------------------------------------
    // Refunds
    // -----------------------------------------------------------------------

    pub open spec fn refund_error(self, id: u32, indices: Seq<u32>) -> Option<Error> {
        if self.paused {
            Some(Error::ContractPaused)
        } else if indices.len() == 0 {
            Some(Error::EmptyRefundRequest)
        } else if has_duplicates(indices) {
            Some(Error::DuplicateMilestoneInRefund)
        } else if !self.has_contract(id) {
            Some(Error::ContractNotFound)
        } else if refund_index_error(self.rec(id).milestones, indices) is Some {
            refund_index_error(self.rec(id).milestones, indices)
        } else if self.rec(id).contract.available() < indices_amount(
            self.rec(id).milestones,
            indices,
        ) {
            Some(Error::InsufficientFunds)
        } else {
            None
        }
    }

    pub open spec fn after_refund(self, id: u32, indices: Seq<u32>) -> EscrowView {
        let r = self.rec(id);
        let ms = mark_refunded(r.milestones, indices);
        let status = if all_settled(ms) {
            ContractStatus::Refunded
        } else {
            r.contract.status
        };
        self.with_rec(
            id,
            RecordView {
                contract: Contract {
                    refunded_amount: (r.contract.refunded_amount + indices_amount(
                        r.milestones,
                        indices,
                    )) as i128,
                    status,
                    ..r.contract
                },
                milestones: ms,
                ..r
            },
        )
    }

    // -----------------------------------------------------------------------
    // Reputation
    // -----------------------------------------------------------------------

    pub open spec fn reputation_of(self, freelancer: Address) -> Option<Reputation> {
        let i = reputation_index(self.reputations, freelancer);
        if i >= 0 {
            Some(self.reputations[i].reputation)
        } else {
            None
        }
    }

    /// The freelancer's counters can take one more rating.
    pub open spec fn reputation_has_room(self, freelancer: Address) -> bool {
        match self.reputation_of(freelancer) {
            Some(rep) => rep.completed_contracts < u64::MAX && rep.total_rating + MAX_RATING
                <= u64::MAX,
            None => true,
        }
    }

    pub open spec fn reputation_error(self, id: u32, caller: Address, freelancer: Address, rating: u32) -> Option<
        Error,
    > {
        let c = self.rec(id).contract;
        if self.paused {
            Some(Error::ContractPaused)
        } else if !self.has_contract(id) {
            Some(Error::ContractNotFound)
        } else if caller != c.client {
            Some(Error::UnauthorizedRole)
        } else if freelancer != c.freelancer {
            Some(Error::FreelancerMismatch)
        } else if c.status != ContractStatus::Completed {
            Some(Error::InvalidState)
        } else if rating < 1 || rating > MAX_RATING {
            Some(Error::InvalidRating)
        } else if self.rec(id).reputation_issued {
            Some(Error::ReputationAlreadyIssued)
        } else {
            None
        }
    }

    pub open spec fn after_reputation(self, id: u32, freelancer: Address, rating: u32) -> EscrowView {
        let r = self.rec(id);
        EscrowView {
            reputations: add_rating(self.reputations, freelancer, rating),
            ..self.with_rec(id, RecordView { reputation_issued: true, ..r })
        }
    }
}

/// The protocol fee on a release of `amount` at `fee_bps` basis points,
/// rounded up.
pub open spec fn protocol_fee(amount: int, fee_bps: int) -> int {
    (amount * fee_bps + 9999) / 10000
}

/// The fee is never negative and never more than the amount released.
pub proof fn lemma_protocol_fee_bounds(amount: int, fee_bps: int)
    requires
        0 <= amount,
        0 <= fee_bps <= MAX_PROTOCOL_FEE_BPS,
    ensures
        0 <= protocol_fee(amount, fee_bps) <= amount,
{
    assert(0 <= amount * fee_bps <= amount * 10000) by (nonlinear_arith)
        requires
            0 <= amount,
            0 <= fee_bps <= 10000,
    ;
    assert((amount * fee_bps + 9999) / 10000 <= amount) by (nonlinear_arith)
        requires
            0 <= amount * fee_bps <= amount * 10000,
            0 <= amount,
    ;
}

/// Some milestone index occurs twice.
pub open spec fn has_duplicates(indices: Seq<u32>) -> bool {
    exists|i: int, j: int| 0 <= i < j < indices.len() && indices[i] == indices[j]
}

/// The error of the first requested index that cannot be refunded.
pub open spec fn refund_index_error(ms: Seq<Milestone>, indices: Seq<u32>) -> Option<Error>
    decreases indices.len(),
{
    if indices.len() == 0 {
        None
    } else if refund_index_error(ms, indices.drop_last()) is Some {
        refund_index_error(ms, indices.drop_last())
    } else {
        let k = indices.last();
        if k >= ms.len() {
            Some(Error::IndexOutOfBounds)
        } else if ms[k as int].released {
            Some(Error::AlreadyReleased)
        } else if ms[k as int].refunded {
            Some(Error::AlreadyRefunded)
        } else {
            None
        }
    }
}

/// The first unrefundable index of a prefix decides the error of the whole request.
pub proof fn lemma_refund_error_extends(ms: Seq<Milestone>, s: Seq<u32>, k: int)
    requires
        0 <= k < s.len(),
        refund_index_error(ms, s.take(k)) is None,
        refund_index_error(ms, s.take(k + 1)) is Some,
    ensures
        refund_index_error(ms, s) == refund_index_error(ms, s.take(k + 1)),
    decreases s.len() - k,
{
    if k == s.len() - 1 {
        assert(s.take(k + 1) =~= s);
    } else {
        assert(s.drop_last().take(k) =~= s.take(k));
        assert(s.drop_last().take(k + 1) =~= s.take(k + 1));
        lemma_refund_error_extends(ms, s.drop_last(), k);
    }
}

/// Without an error, every requested index names an unsettled milestone.
pub proof fn lemma_refund_indices_valid(ms: Seq<Milestone>, s: Seq<u32>)
    requires
        refund_index_error(ms, s) is None,
    ensures
        forall|k: int|
            0 <= k < s.len() ==> (#[trigger] s[k]) < ms.len() && !ms[s[k] as int].released
                && !ms[s[k] as int].refunded,
    decreases s.len(),
{
    if s.len() > 0 {
        lemma_refund_indices_valid(ms, s.drop_last());
        assert forall|k: int| 0 <= k < s.len() implies (#[trigger] s[k]) < ms.len()
            && !ms[s[k] as int].released && !ms[s[k] as int].refunded by {
            if k < s.len() - 1 {
                assert(s[k] == s.drop_last()[k]);
            }
        }
    }
}

/// The total amount of the requested milestones.
pub open spec fn indices_amount(ms: Seq<Milestone>, indices: Seq<u32>) -> int
    decreases indices.len(),
{
    if indices.len() == 0 {
        0
    } else {
        indices_amount(ms, indices.drop_last()) + ms[indices.last() as int].amount
    }
}

/// The milestones with every requested index marked refunded.
pub open spec fn mark_refunded(ms: Seq<Milestone>, indices: Seq<u32>) -> Seq<Milestone> {
    Seq::new(
        ms.len(),
        |j: int|
            if indices.contains(j as u32) {
                Milestone { refunded: true, ..ms[j] }
            } else {
                ms[j]
            },
    )
}

/// Position of the last entry for `freelancer`, or -1.
pub open spec fn reputation_index(entries: Seq<ReputationEntry>, freelancer: Address) -> int
    decreases entries.len(),
{
    if entries.len() == 0 {
        -1
    } else if entries.last().freelancer == freelancer {
        entries.len() - 1
    } else {
        reputation_index(entries.drop_last(), freelancer)
    }
}

/// The entries after `freelancer` receives `rating` for one more contract.
pub open spec fn add_rating(entries: Seq<ReputationEntry>, freelancer: Address, rating: u32) -> Seq<
    ReputationEntry,
> {
    let i = reputation_index(entries, freelancer);
    if i >= 0 {
        let rep = entries[i].reputation;
        entries.update(
            i,
            ReputationEntry {
                freelancer,
                reputation: Reputation {
                    completed_contracts: (rep.completed_contracts + 1) as u64,
                    total_rating: (rep.total_rating + rating) as u64,
                    last_rating: rating,
                },
            },
        )
    } else {
        entries.push(
            ReputationEntry {
                freelancer,
                reputation: Reputation {
                    completed_contracts: 1,
                    total_rating: rating as u64,
                    last_rating: rating,
                },
            },
        )
    }
}

/// The position found for `freelancer` is in range and holds its entry.
pub proof fn lemma_reputation_index_bounds(entries: Seq<ReputationEntry>, freelancer: Address)
    ensures
        -1 <= reputation_index(entries, freelancer) < entries.len(),
        reputation_index(entries, freelancer) >= 0 ==> entries[reputation_index(entries, freelancer)].freelancer
            == freelancer,
    decreases entries.len(),
{
    if entries.len() > 0 && entries.last().freelancer != freelancer {
        lemma_reputation_index_bounds(entries.drop_last(), freelancer);
    }
}

/// Rewriting the entry found for `e.freelancer` with another entry for the
/// same freelancer moves no one's position.
pub proof fn lemma_reputation_index_update(entries: Seq<ReputationEntry>, e: ReputationEntry, g: Address)
    requires
        reputation_index(entries, e.freelancer) >= 0,
    ensures
        reputation_index(entries.update(reputation_index(entries, e.freelancer), e), g)
            == reputation_index(entries, g),
    decreases entries.len(),
{
    let i = reputation_index(entries, e.freelancer);
    lemma_reputation_index_bounds(entries, e.freelancer);
    let u = entries.update(i, e);
    if i == entries.len() - 1 {
        assert(u.drop_last() =~= entries.drop_last());
    } else {
        assert(entries.last().freelancer != e.freelancer);
        assert(u.drop_last() =~= entries.drop_last().update(i, e));
        lemma_reputation_index_update(entries.drop_last(), e, g);
    }
}

/// Appending an entry makes it the one found for its freelancer and moves
/// no one else's position.
pub proof fn lemma_reputation_index_push(entries: Seq<ReputationEntry>, e: ReputationEntry, g: Address)
    ensures
        reputation_index(entries.push(e), g) == if g == e.freelancer {
            entries.len() as int
        } else {
            reputation_index(entries, g)
        },
{
    assert(entries.push(e).drop_last() =~= entries);
}

} // verus!
