//! The escrow ledger: every contract with its milestones and approvals,
//! the governance flags, protocol fees and reputation, and one method per
//! entry point, each proved to follow the transition of `model`.
use vstd::prelude::*;
use crate::amount_validation::{amounts_sum, lemma_prefix_sum_le, MAX_MILESTONES, MAX_TOTAL_ESCROW_STROOPS};
use crate::approvals::{
    approve_milestone, check_approvals, clear_approvals, next_live_until, read_live_approvals,
    StoredApprovals,
};
use crate::model::{
    all_settled, amount_of, some_refunded, some_released, indices_amount, lemma_amounts_sum_is_total,
    lemma_record_bounds, lemma_refund_error_extends, lemma_refund_indices_valid, lemma_sum_nonneg, lemma_sum_update, lemma_term_le_sum, mark_refunded, milestone_sum,
    protocol_fee, record_wf, refund_index_error, released_amount_of, refunded_amount_of,
    released_total, refunded_total, reputation_index, total_amount, EscrowView, RecordView,
    ReputationEntry, MAX_PROTOCOL_FEE_BPS, MAX_RATING,
};
use crate::types::{
    Address, Contract, ContractStatus, Error, Milestone, ReleaseAuthorization, Reputation,
};

verus! {

/// One escrow contract as stored: its metadata and balances, its
/// milestones, the pending approvals of each milestone, and whether the
/// client has rated the freelancer for it.
pub struct EscrowRecord {
    pub contract: Contract,
    pub milestones: Vec<Milestone>,
    pub approvals: Vec<Option<StoredApprovals>>,
    pub reputation_issued: bool,
}

impl View for EscrowRecord {
    type V = RecordView;

    open spec fn view(&self) -> RecordView {
        RecordView {
            contract: self.contract,
            milestones: self.milestones@,
            approvals: self.approvals@,
            reputation_issued: self.reputation_issued,
        }
    }
}

/// The whole escrow ledger. The contract with id `n` is `records[n - 1]`;
/// ids start at 1 and are handed out in order.
pub struct Escrow {
    pub admin: Option<Address>,
    pub paused: bool,
    pub emergency: bool,
    pub protocol_fee_bps: u32,
    pub accumulated_protocol_fees: i128,
    pub records: Vec<EscrowRecord>,
    pub reputations: Vec<ReputationEntry>,
}

impl View for Escrow {
    type V = EscrowView;

    open spec fn view(&self) -> EscrowView {
        EscrowView {
            admin: self.admin,
            paused: self.paused,
            emergency: self.emergency,
            protocol_fee_bps: self.protocol_fee_bps,
            accumulated_protocol_fees: self.accumulated_protocol_fees,
            records: self.records@.map_values(|r: EscrowRecord| r@),
            reputations: self.reputations@,
        }
    }
}

/// A prefix of a sum of non-negative terms is at most the whole sum.
proof fn lemma_milestone_prefix_le(ms: Seq<Milestone>, k: int, f: spec_fn(Milestone) -> int)
    requires
        0 <= k <= ms.len(),
        forall|j: int| 0 <= j < ms.len() ==> f(#[trigger] ms[j]) >= 0,
    ensures
        milestone_sum(ms.take(k), f) <= milestone_sum(ms, f),
    decreases ms.len() - k,
{
    if k < ms.len() {
        lemma_milestone_prefix_le(ms, k + 1, f);
        assert(ms.take(k + 1).drop_last() =~= ms.take(k));
    } else {
        assert(ms.take(k) =~= ms);
    }
}

/// A sum of a function that is zero on every milestone is zero.
proof fn lemma_sum_zero(ms: Seq<Milestone>, f: spec_fn(Milestone) -> int)
    requires
        forall|j: int| 0 <= j < ms.len() ==> f(#[trigger] ms[j]) == 0,
    ensures
        milestone_sum(ms, f) == 0,
    decreases ms.len(),
{
    if ms.len() > 0 {
        assert forall|j: int| 0 <= j < ms.drop_last().len() implies f(
            #[trigger] ms.drop_last()[j],
        ) == 0 by {
            assert(ms.drop_last()[j] == ms[j]);
        }
        lemma_sum_zero(ms.drop_last(), f);
    }
}

/// The sum of the milestone amounts.
fn milestones_total(ms: &Vec<Milestone>) -> (t: i128)
    requires
        forall|j: int| 0 <= j < ms@.len() ==> (#[trigger] ms@[j]).amount > 0,
        total_amount(ms@) <= MAX_TOTAL_ESCROW_STROOPS,
    ensures
        t == total_amount(ms@),
{
    let mut t: i128 = 0;
    let mut i: usize = 0;
    let n = ms.len();
    assert(ms@.take(0) =~= Seq::<Milestone>::empty());
    while i < n
        invariant
            n == ms@.len(),
            i <= n,
            forall|j: int| 0 <= j < ms@.len() ==> (#[trigger] ms@[j]).amount > 0,
            total_amount(ms@) <= MAX_TOTAL_ESCROW_STROOPS,
            t == total_amount(ms@.take(i as int)),
        decreases n - i,
    {
        proof {
            assert(ms@.take(i as int + 1).drop_last() =~= ms@.take(i as int));
            lemma_milestone_prefix_le(ms@, i as int + 1, |m: Milestone| amount_of(m));
        }
        t = t + ms[i].amount;
        i = i + 1;
    }
    assert(ms@.take(n as int) =~= ms@);
    t
}

/// The protocol fee on a release of `amount` at `fee_bps` basis points,
/// rounded up; never more than the amount itself.
pub fn calculate_protocol_fee(amount: i128, fee_bps: u32) -> (fee: i128)
    requires
        0 <= amount <= MAX_TOTAL_ESCROW_STROOPS,
        fee_bps <= MAX_PROTOCOL_FEE_BPS,
    ensures
        fee == protocol_fee(amount as int, fee_bps as int),
        0 <= fee <= amount,
{
    proof {
        assert(amount * fee_bps <= amount * 10000) by (nonlinear_arith)
            requires
                0 <= amount,
                fee_bps <= 10000,
        ;
        assert(0 <= amount * fee_bps) by (nonlinear_arith)
            requires
                0 <= amount,
                0 <= fee_bps,
        ;
    }
    let product = amount * (fee_bps as i128);
    (product + 9999) / 10000
}

/// Whether every milestone has been released or refunded.
fn milestones_all_settled(ms: &Vec<Milestone>) -> (b: bool)
    ensures
        b == all_settled(ms@),
{
    let mut k: usize = 0;
    while k < ms.len()
        invariant
            k <= ms@.len(),
            forall|q: int| 0 <= q < k ==> (#[trigger] ms@[q]).released || ms@[q].refunded,
        decreases ms@.len() - k,
    {
        if !ms[k].released && !ms[k].refunded {
            return false;
        }
        k = k + 1;
    }
    true
}

impl Escrow {
    /// An escrow with no contracts, not initialized and not paused.
    pub fn new() -> (s: Self)
        ensures
            s@.wf(),
            s@.admin is None,
            !s@.paused,
            !s@.emergency,
            s@.protocol_fee_bps == 0,
            s@.accumulated_protocol_fees == 0,
            s@.records.len() == 0,
            s@.reputations.len() == 0,
    {
        Escrow {
            admin: None,
            paused: false,
            emergency: false,
            protocol_fee_bps: 0,
            accumulated_protocol_fees: 0,
            records: Vec::new(),
            reputations: Vec::new(),
        }
    }

    // -----------------------------------------------------------------------
    // Governance
    // -----------------------------------------------------------------------

    /// Sets the administrator, once.
    pub fn initialize(&mut self, admin: Address) -> (r: Result<bool, Error>)
        requires
            old(self)@.wf(),
        ensures
            final(self)@.wf(),
            match old(self)@.initialize_error() {
                Some(e) => r == Err::<bool, Error>(e) && final(self)@ == old(self)@,
                None => r == Ok::<bool, Error>(true) && final(self)@ == old(self)@.after_initialize(
                    admin,
                ),
            },
    {
        if self.admin.is_some() {
            return Err(Error::AlreadyInitialized);
        }
        self.admin = Some(admin);
        Ok(true)
    }

    /// Whether an administrator has been set.
    pub fn is_initialized(&self) -> (b: bool)
        ensures
            b == self@.admin is Some,
    {
        self.admin.is_some()
    }

    /// The administrator, if one has been set.
    pub fn get_admin(&self) -> (a: Option<Address>)
        ensures
            a == self@.admin,
    {
        self.admin
    }

    /// Blocks every state-changing contract operation.
    pub fn pause(&mut self) -> (r: Result<bool, Error>)
        requires
            old(self)@.wf(),
        ensures
            final(self)@.wf(),
            match old(self)@.admin_error() {
                Some(e) => r == Err::<bool, Error>(e) && final(self)@ == old(self)@,
                None => r == Ok::<bool, Error>(true) && final(self)@ == EscrowView {
                    paused: true,
                    ..old(self)@
                },
            },
    {
        if self.admin.is_none() {
            return Err(Error::NotInitialized);
        }
        self.paused = true;
        Ok(true)
    }

    /// Lifts a pause; refused while an emergency is active.
    pub fn unpause(&mut self) -> (r: Result<bool, Error>)
        requires
            old(self)@.wf(),
        ensures
            final(self)@.wf(),
            match old(self)@.unpause_error() {
                Some(e) => r == Err::<bool, Error>(e) && final(self)@ == old(self)@,
                None => r == Ok::<bool, Error>(true) && final(self)@ == EscrowView {
                    paused: false,
                    ..old(self)@
                },
            },
    {
        if self.admin.is_none() {
            return Err(Error::NotInitialized);
        }
        if self.emergency {
            return Err(Error::EmergencyActive);
        }
        self.paused = false;
        Ok(true)
    }

    /// Declares an emergency: pauses and marks the emergency.
    pub fn activate_emergency_pause(&mut self) -> (r: Result<bool, Error>)
        requires
            old(self)@.wf(),
        ensures
            final(self)@.wf(),
            match old(self)@.admin_error() {
                Some(e) => r == Err::<bool, Error>(e) && final(self)@ == old(self)@,
                None => r == Ok::<bool, Error>(true) && final(self)@ == EscrowView {
                    paused: true,
                    emergency: true,
                    ..old(self)@
                },
            },
    {
        if self.admin.is_none() {
            return Err(Error::NotInitialized);
        }
        self.paused = true;
        self.emergency = true;
        Ok(true)
    }

    /// Ends an emergency: clears both the emergency and the pause.
    pub fn resolve_emergency(&mut self) -> (r: Result<bool, Error>)
        requires
            old(self)@.wf(),
        ensures
            final(self)@.wf(),
            match old(self)@.admin_error() {
                Some(e) => r == Err::<bool, Error>(e) && final(self)@ == old(self)@,
                None => r == Ok::<bool, Error>(true) && final(self)@ == EscrowView {
                    paused: false,
                    emergency: false,
                    ..old(self)@
                },
            },
    {
        if self.admin.is_none() {
            return Err(Error::NotInitialized);
        }
        self.emergency = false;
        self.paused = false;
        Ok(true)
    }

    /// Whether state-changing contract operations are blocked.
    pub fn is_paused(&self) -> (b: bool)
        ensures
            b == self@.paused,
    {
        self.paused
    }

    /// Whether an emergency is active.
    pub fn is_emergency(&self) -> (b: bool)
        ensures
            b == self@.emergency,
    {
        self.emergency
    }

    /// Sets the protocol fee charged on each release, in basis points.
    pub fn set_protocol_fee_bps(&mut self, fee_bps: u32) -> (r: Result<bool, Error>)
        requires
            old(self)@.wf(),
        ensures
            final(self)@.wf(),
            match old(self)@.set_fee_error(fee_bps) {
                Some(e) => r == Err::<bool, Error>(e) && final(self)@ == old(self)@,
                None => r == Ok::<bool, Error>(true) && final(self)@ == EscrowView {
                    protocol_fee_bps: fee_bps,
                    ..old(self)@
                },
            },
    {
        if self.admin.is_none() {
            return Err(Error::NotInitialized);
        }
        if fee_bps > MAX_PROTOCOL_FEE_BPS {
            return Err(Error::InvalidFeeRate);
        }
        self.protocol_fee_bps = fee_bps;
        Ok(true)
    }

    /// The protocol fee rate in basis points.
    pub fn get_protocol_fee_bps(&self) -> (b: u32)
        ensures
            b == self@.protocol_fee_bps,
    {
        self.protocol_fee_bps
    }

    /// The protocol fees collected and not yet withdrawn.
    pub fn get_accumulated_protocol_fees(&self) -> (f: i128)
        ensures
            f == self@.accumulated_protocol_fees,
    {
        self.accumulated_protocol_fees
    }

    /// Takes `amount` out of the collected protocol fees; only the
    /// administrator may, and never more than has been collected.
    pub fn withdraw_protocol_fees(&mut self, caller: Address, amount: i128) -> (r: Result<bool, Error>)
        requires
            old(self)@.wf(),
        ensures
            final(self)@.wf(),
            match old(self)@.withdraw_fees_error(caller, amount) {
                Some(e) => r == Err::<bool, Error>(e) && final(self)@ == old(self)@,
                None => r == Ok::<bool, Error>(true) && final(self)@ == EscrowView {
                    accumulated_protocol_fees: (old(self)@.accumulated_protocol_fees
                        - amount) as i128,
                    ..old(self)@
                },
            },
    {
        match self.admin {
            None => return Err(Error::NotInitialized),
            Some(a) => {
                if a != caller {
                    return Err(Error::UnauthorizedRole);
                }
            },
        }
        if amount <= 0 {
            return Err(Error::AmountMustBePositive);
        }
        if amount > self.accumulated_protocol_fees {
            return Err(Error::InsufficientAccumulatedFees);
        }
        self.accumulated_protocol_fees = self.accumulated_protocol_fees - amount;
        Ok(true)
    }

    // -----------------------------------------------------------------------
    // Contracts
    // -----------------------------------------------------------------------

    /// Creates an escrow between `client` and `freelancer` (and an optional
    /// arbiter) over the given milestone amounts, and returns its id.
    #[verifier::loop_isolation(false)]
    pub fn create_contract(
        &mut self,
        client: Address,
        freelancer: Address,
        arbiter: Option<Address>,
        milestones: &[i128],
        release_authorization: ReleaseAuthorization,
    ) -> (r: Result<u32, Error>)
        requires
            old(self)@.wf(),
            old(self)@.records.len() + 1 < u32::MAX,
        ensures
            final(self)@.wf(),
            old(self)@.settled_stays_settled(final(self)@),
            match old(self)@.create_error(client, freelancer, arbiter, milestones@, release_authorization) {
                Some(e) => r == Err::<u32, Error>(e) && final(self)@ == old(self)@,
                None => r == Ok::<u32, Error>((old(self)@.records.len() + 1) as u32)
                    && final(self)@ == old(self)@.after_create(
                    client,
                    freelancer,
                    arbiter,
                    milestones@,
                    release_authorization,
                ),
            },
    {
        if self.paused {
            return Err(Error::ContractPaused);
        }
        if client == freelancer {
            return Err(Error::InvalidParticipants);
        }
        match release_authorization {
            ReleaseAuthorization::ArbiterOnly | ReleaseAuthorization::ClientAndArbiter => {
                if arbiter.is_none() {
                    return Err(Error::MissingArbiter);
                }
            },
            _ => {},
        }
        match arbiter {
            Some(a) => {
                if a == client || a == freelancer {
                    return Err(Error::InvalidArbiter);
                }
            },
            None => {},
        }
        let n = milestones.len();
        if n == 0 {
            return Err(Error::EmptyMilestones);
        }
        let mut i: usize = 0;
        while i < n
            invariant
                n == milestones@.len(),
                i <= n,
                forall|k: int| 0 <= k < i ==> #[trigger] milestones@[k] > 0,
            decreases n - i,
        {
            if milestones[i] <= 0 {
                return Err(Error::InvalidMilestoneAmount);
            }
            i = i + 1;
        }
        if n > MAX_MILESTONES as usize {
            return Err(Error::TooManyMilestones);
        }
        let mut total: i128 = 0;
        let mut j: usize = 0;
        assert(milestones@.take(0) =~= Seq::<i128>::empty());
        while j < n
            invariant
                n == milestones@.len(),
                j <= n,
                forall|k: int| 0 <= k < n ==> #[trigger] milestones@[k] > 0,
                total == amounts_sum(milestones@.take(j as int)),
            decreases n - j,
        {
            assert(milestones@.take(j as int + 1).drop_last() =~= milestones@.take(j as int));
            match total.checked_add(milestones[j]) {
                Some(t) => {
                    total = t;
                },
                None => {
                    proof {
                        lemma_prefix_sum_le(milestones@, j as int + 1);
                    }
                    return Err(Error::PotentialOverflow);
                },
            }
            j = j + 1;
        }
        assert(milestones@.take(n as int) =~= milestones@);
        if total > MAX_TOTAL_ESCROW_STROOPS {
            return Err(Error::TotalExceedsMaxEscrow);
        }
        let mut ms: Vec<Milestone> = Vec::new();
        let mut approvals: Vec<Option<StoredApprovals>> = Vec::new();
        let mut k: usize = 0;
        while k < n
            invariant
                n == milestones@.len(),
                k <= n,
                ms@.len() == k,
                approvals@.len() == k,
                forall|q: int| 0 <= q < k ==> #[trigger] ms@[q] == (Milestone {
                    amount: milestones@[q],
                    released: false,
                    refunded: false,
                }),
                forall|q: int| 0 <= q < k ==> #[trigger] approvals@[q] is None,
            decreases n - k,
        {
            ms.push(Milestone { amount: milestones[k], released: false, refunded: false });
            approvals.push(None);
            k = k + 1;
        }
        let id = (self.records.len() + 1) as u32;
        let contract = Contract {
            client,
            freelancer,
            arbiter,
            status: ContractStatus::Created,
            funded_amount: 0,
            released_amount: 0,
            refunded_amount: 0,
            release_authorization,
        };
        let record = EscrowRecord { contract, milestones: ms, approvals, reputation_issued: false };
        let ghost old_view = self@;
        proof {
            let nr = EscrowView::new_record(client, freelancer, arbiter, milestones@, release_authorization);
            assert(record@.milestones =~= nr.milestones);
            assert(record@.approvals =~= nr.approvals);
            assert(record@ == nr);
            lemma_amounts_sum_is_total(milestones@, record@.milestones);
            lemma_sum_zero(record@.milestones, |m: Milestone| released_amount_of(m));
            lemma_sum_zero(record@.milestones, |m: Milestone| refunded_amount_of(m));
            lemma_term_le_sum(record@.milestones, 0, |m: Milestone| amount_of(m));
            assert(!all_settled(record@.milestones)) by {
                assert(!record@.milestones[0].released && !record@.milestones[0].refunded);
            }
            assert(record_wf(record@));
        }
        self.records.push(record);
        proof {
            assert(self@.records =~= old_view.records.push(record@));
        }
        Ok(id)
    }

    /// A record that stands in a slot while the real one is being updated:
    /// an empty, unfunded `Created` contract with no parties of its own.
    fn placeholder() -> (r: EscrowRecord)
        ensures
            r.contract == (Contract {
                client: Address(0),
                freelancer: Address(0),
                arbiter: None,
                status: ContractStatus::Created,
                funded_amount: 0,
                released_amount: 0,
                refunded_amount: 0,
                release_authorization: ReleaseAuthorization::ClientOnly,
            }),
            r@.milestones.len() == 0,
            r@.approvals.len() == 0,
            !r.reputation_issued,
    {
        EscrowRecord {
            contract: Contract {
                client: Address(0),
                freelancer: Address(0),
                arbiter: None,
                status: ContractStatus::Created,
                funded_amount: 0,
                released_amount: 0,
                refunded_amount: 0,
                release_authorization: ReleaseAuthorization::ClientOnly,
            },
            milestones: Vec::new(),
            approvals: Vec::new(),
            reputation_issued: false,
        }
    }

    /// Puts `rec` in slot `i` and hands back what was there.
    fn swap_record(&mut self, i: usize, rec: EscrowRecord) -> (prev: EscrowRecord)
        requires
            i < old(self).records@.len(),
        ensures
            prev@ == old(self)@.records[i as int],
            final(self).records@.len() == old(self).records@.len(),
            final(self)@ == (EscrowView {
                records: old(self)@.records.update(i as int, rec@),
                ..old(self)@
            }),
    {
        let mut r = rec;
        let ghost rec_view = rec@;
        self.records.set_and_swap(i, &mut r);
        proof {
            assert(self@.records =~= old(self)@.records.update(i as int, rec_view));
        }
        r
    }

    /// Adds `amount` to the contract's funding; the contract becomes
    /// `Funded` once it holds the total of its milestones.
    pub fn deposit_funds(&mut self, contract_id: u32, caller: Address, amount: i128) -> (r: Result<
        bool,
        Error,
    >)
        requires
            old(self)@.wf(),
        ensures
            final(self)@.wf(),
            old(self)@.settled_stays_settled(final(self)@),
            match old(self)@.deposit_error(contract_id, caller, amount) {
                Some(e) => r == Err::<bool, Error>(e) && final(self)@ == old(self)@,
                None => r == Ok::<bool, Error>(true) && final(self)@ == old(self)@.after_deposit(
                    contract_id,
                    amount,
                ),
            },
    {
        if self.paused {
            return Err(Error::ContractPaused);
        }
        if amount <= 0 {
            return Err(Error::AmountMustBePositive);
        }
        if contract_id == 0 || contract_id as usize > self.records.len() {
            return Err(Error::ContractNotFound);
        }
        let i = (contract_id - 1) as usize;
        proof {
            assert(record_wf(self@.records[i as int]));
        }
        let c = self.records[i].contract;
        if caller != c.client {
            return Err(Error::UnauthorizedRole);
        }
        if c.status != ContractStatus::Created {
            return Err(Error::InvalidState);
        }
        let total = milestones_total(&self.records[i].milestones);
        if amount > total - c.funded_amount {
            return Err(Error::FundingExceedsRequired);
        }
        let funded = c.funded_amount + amount;
        let status = if funded >= total {
            ContractStatus::Funded
        } else {
            c.status
        };
        let ghost old_view = self@;
        let mut rec = self.swap_record(i, Self::placeholder());
        rec.contract = Contract { funded_amount: funded, status, ..c };
        self.swap_record(i, rec);
        proof {
            assert(self@ =~= old_view.after_deposit(contract_id, amount));
            assert forall|k: int| 0 <= k < self@.records.len() implies record_wf(
                #[trigger] self@.records[k],
            ) by {
                if k != i {
                    assert(self@.records[k] == old_view.records[k]);
                }
            }
        }
        Ok(true)
    }

    // -----------------------------------------------------------------------
    // Queries
    // -----------------------------------------------------------------------

    /// The contract with id `contract_id`.
    pub fn get_contract(&self, contract_id: u32) -> (r: Result<Contract, Error>)
        ensures
            r == (if self@.has_contract(contract_id) {
                Ok::<Contract, Error>(self@.rec(contract_id).contract)
            } else {
                Err::<Contract, Error>(Error::ContractNotFound)
            }),
    {
        if contract_id == 0 || contract_id as usize > self.records.len() {
            return Err(Error::ContractNotFound);
        }
        Ok(self.records[(contract_id - 1) as usize].contract)
    }

    /// The milestones of contract `contract_id`.
    pub fn get_milestones(&self, contract_id: u32) -> (r: Result<Vec<Milestone>, Error>)
        ensures
            self@.has_contract(contract_id) ==> r is Ok && r->Ok_0@ == self@.rec(
                contract_id,
            ).milestones,
            !self@.has_contract(contract_id) ==> r == Err::<Vec<Milestone>, Error>(
                Error::ContractNotFound,
            ),
    {
        if contract_id == 0 || contract_id as usize > self.records.len() {
            return Err(Error::ContractNotFound);
        }
        let ms = &self.records[(contract_id - 1) as usize].milestones;
        let mut out: Vec<Milestone> = Vec::new();
        let mut k: usize = 0;
        while k < ms.len()
            invariant
                k <= ms@.len(),
                out@ =~= ms@.take(k as int),
            decreases ms@.len() - k,
        {
            out.push(ms[k]);
            k = k + 1;
            assert(out@ =~= ms@.take(k as int));
        }
        assert(ms@.take(ms@.len() as int) =~= ms@);
        Ok(out)
    }

    /// What contract `contract_id` holds: funded, neither released nor refunded.
    pub fn get_refundable_balance(&self, contract_id: u32) -> (r: Result<i128, Error>)
        requires
            self@.wf(),
        ensures
            r == (if self@.has_contract(contract_id) {
                Ok::<i128, Error>(self@.rec(contract_id).contract.available() as i128)
            } else {
                Err::<i128, Error>(Error::ContractNotFound)
            }),
            r is Ok ==> 0 <= r->Ok_0 <= MAX_TOTAL_ESCROW_STROOPS,
    {
        if contract_id == 0 || contract_id as usize > self.records.len() {
            return Err(Error::ContractNotFound);
        }
        let i = (contract_id - 1) as usize;
        proof {
            lemma_record_bounds(self@.records[i as int]);
        }
        let c = self.records[i].contract;
        Ok(c.funded_amount - c.released_amount - c.refunded_amount)
    }

    /// The approvals of a milestone that still count on `current_ledger`;
    /// `None` when there are none or they have expired.
    pub fn get_milestone_approvals(&self, contract_id: u32, milestone_index: u32, current_ledger: u32) -> (r:
        Option<crate::types::MilestoneApprovals>)
        ensures
            r == (if self@.has_contract(contract_id) {
                self@.live_approvals_of(contract_id, milestone_index, current_ledger)
            } else {
                None
            }),
    {
        if contract_id == 0 || contract_id as usize > self.records.len() {
            return None;
        }
        let rec = &self.records[(contract_id - 1) as usize];
        if milestone_index as usize >= rec.approvals.len() {
            return None;
        }
        crate::approvals::read_live_approvals(&rec.approvals[milestone_index as usize], current_ledger)
    }

    /// Records `caller`'s approval of milestone `milestone_index`. A new
    /// approval record stays live for `PENDING_APPROVAL_TTL_LEDGERS` ledgers
    /// after `current_ledger`; a live one keeps its expiry unless at most
    /// `PENDING_APPROVAL_BUMP_THRESHOLD` ledgers of it remain.
    pub fn approve_milestone_release(
        &mut self,
        contract_id: u32,
        caller: Address,
        milestone_index: u32,
        current_ledger: u32,
    ) -> (r: Result<bool, Error>)
        requires
            old(self)@.wf(),
        ensures
            final(self)@.wf(),
            old(self)@.settled_stays_settled(final(self)@),
            match old(self)@.approve_error(contract_id, caller, milestone_index, current_ledger) {
                Some(e) => r == Err::<bool, Error>(e) && final(self)@ == old(self)@,
                None => r == Ok::<bool, Error>(true) && final(self)@ == old(self)@.after_approve(
                    contract_id,
                    caller,
                    milestone_index,
                    current_ledger,
                ),
            },
    {
        if self.paused {
            return Err(Error::ContractPaused);
        }
        if contract_id == 0 || contract_id as usize > self.records.len() {
            return Err(Error::ContractNotFound);
        }
        let i = (contract_id - 1) as usize;
        proof {
            assert(record_wf(self@.records[i as int]));
        }
        let current = if (milestone_index as usize) < self.records[i].approvals.len() {
            read_live_approvals(&self.records[i].approvals[milestone_index as usize], current_ledger)
        } else {
            None
        };
        let approvals = match approve_milestone(
            &self.records[i].contract,
            &self.records[i].milestones,
            milestone_index,
            caller,
            current,
        ) {
            Ok(a) => a,
            Err(e) => return Err(e),
        };
        let live_until_ledger = next_live_until(
            &self.records[i].approvals[milestone_index as usize],
            current_ledger,
        );
        let ghost old_view = self@;
        let mut rec = self.swap_record(i, Self::placeholder());
        rec.approvals.set(
            milestone_index as usize,
            Some(StoredApprovals { approvals, live_until_ledger }),
        );
        self.swap_record(i, rec);
        proof {
            assert(self@ =~= old_view.after_approve(contract_id, caller, milestone_index, current_ledger));
            assert forall|k: int| 0 <= k < self@.records.len() implies record_wf(
                #[trigger] self@.records[k],
            ) by {
                if k != i {
                    assert(self@.records[k] == old_view.records[k]);
                }
            }
        }
        Ok(true)
    }

    /// Releases milestone `milestone_index` to the freelancer: the caller must
    /// hold a releasing role, the milestone must be unsettled, its live
    /// approvals must suffice and the contract must hold its amount. The
    /// approvals are consumed, the protocol fee is collected, and the contract
    /// completes once every milestone is settled.
    pub fn release_milestone(
        &mut self,
        contract_id: u32,
        caller: Address,
        milestone_index: u32,
        current_ledger: u32,
    ) -> (r: Result<bool, Error>)
        requires
            old(self)@.wf(),
            old(self)@.release_error(contract_id, caller, milestone_index, current_ledger) is None
                ==> old(self)@.accumulated_protocol_fees + old(self)@.release_fee(
                contract_id,
                milestone_index,
            ) <= i128::MAX,
        ensures
            final(self)@.wf(),
            old(self)@.settled_stays_settled(final(self)@),
            match old(self)@.release_error(contract_id, caller, milestone_index, current_ledger) {
                Some(e) => r == Err::<bool, Error>(e) && final(self)@ == old(self)@,
                None => r == Ok::<bool, Error>(true) && final(self)@ == old(self)@.after_release(
                    contract_id,
                    milestone_index,
                ),
            },
    {
        if self.paused {
            return Err(Error::ContractPaused);
        }
        if contract_id == 0 || contract_id as usize > self.records.len() {
            return Err(Error::ContractNotFound);
        }
        let i = (contract_id - 1) as usize;
        proof {
            lemma_record_bounds(self@.records[i as int]);
        }
        let c = self.records[i].contract;
        if c.status != ContractStatus::Funded {
            return Err(Error::InvalidState);
        }
        let is_client = caller == c.client;
        let is_freelancer = caller == c.freelancer;
        let is_arbiter = match c.arbiter {
            Some(a) => caller == a,
            None => false,
        };
        let allowed = match c.release_authorization {
            ReleaseAuthorization::ClientOnly => is_client,
            ReleaseAuthorization::ArbiterOnly => is_arbiter,
            ReleaseAuthorization::ClientAndArbiter => is_client || is_arbiter,
            ReleaseAuthorization::MultiSig => is_client || is_freelancer,
        };
        if !allowed {
            return Err(Error::UnauthorizedRole);
        }
        let idx = milestone_index as usize;
        if idx >= self.records[i].milestones.len() {
            return Err(Error::InvalidMilestone);
        }
        let m = self.records[i].milestones[idx];
        if m.released {
            return Err(Error::MilestoneAlreadyReleased);
        }
        match check_approvals(&c, &self.records[i].approvals[idx], current_ledger) {
            Ok(_) => {},
            Err(e) => return Err(e),
        }
        if m.refunded {
            return Err(Error::AlreadyRefunded);
        }
        let available = c.funded_amount - c.released_amount - c.refunded_amount;
        if available < m.amount {
            return Err(Error::InsufficientFunds);
        }
        let fee = calculate_protocol_fee(m.amount, self.protocol_fee_bps);
        let ghost old_view = self@;
        let ghost old_ms = self@.records[i as int].milestones;
        let mut rec = self.swap_record(i, Self::placeholder());
        rec.milestones.set(idx, Milestone { released: true, ..m });
        clear_approvals(&mut rec.approvals, milestone_index);
        let settled = milestones_all_settled(&rec.milestones);
        let status = if settled {
            ContractStatus::Completed
        } else {
            c.status
        };
        rec.contract = Contract { released_amount: c.released_amount + m.amount, status, ..c };
        self.swap_record(i, rec);
        self.accumulated_protocol_fees = self.accumulated_protocol_fees + fee;
        proof {
            let new_ms = old_ms.update(idx as int, Milestone { released: true, ..m });
            lemma_sum_update(old_ms, idx as int, Milestone { released: true, ..m }, |q: Milestone| released_amount_of(q));
            lemma_sum_update(old_ms, idx as int, Milestone { released: true, ..m }, |q: Milestone| refunded_amount_of(q));
            lemma_sum_update(old_ms, idx as int, Milestone { released: true, ..m }, |q: Milestone| amount_of(q));
            assert(new_ms[idx as int].released);
            assert(some_released(new_ms));
            assert(self@ =~= old_view.after_release(contract_id, milestone_index));
            assert forall|k: int| 0 <= k < self@.records.len() implies record_wf(
                #[trigger] self@.records[k],
            ) by {
                if k != i {
                    assert(self@.records[k] == old_view.records[k]);
                }
            }
        }
        Ok(true)
    }

    /// Refunds the listed unsettled milestones to the client and returns the
    /// amount refunded. The request must be non-empty, free of duplicates,
    /// name only unsettled milestones, and be covered by what the contract
    /// holds; a refund that settles the last milestones leaves the contract
    /// `Refunded`.
    #[verifier::loop_isolation(false)]
    #[verifier::rlimit(50)]
    pub fn refund_unreleased_milestones(&mut self, contract_id: u32, milestone_indices: &[u32]) -> (r:
        Result<i128, Error>)
        requires
            old(self)@.wf(),
        ensures
            final(self)@.wf(),
            old(self)@.settled_stays_settled(final(self)@),
            match old(self)@.refund_error(contract_id, milestone_indices@) {
                Some(e) => r == Err::<i128, Error>(e) && final(self)@ == old(self)@,
                None => r == Ok::<i128, Error>(
                    indices_amount(old(self)@.rec(contract_id).milestones, milestone_indices@) as i128,
                ) && final(self)@ == old(self)@.after_refund(contract_id, milestone_indices@),
            },
    {
        if self.paused {
            return Err(Error::ContractPaused);
        }
        let n = milestone_indices.len();
        if n == 0 {
            return Err(Error::EmptyRefundRequest);
        }
        let ghost idxs = milestone_indices@;
        let mut a: usize = 0;
        while a < n
            invariant
                n == idxs.len(),
                a <= n,
                forall|p: int, q: int| 0 <= p < q < n && p < a ==> idxs[p] != idxs[q],
            decreases n - a,
        {
            let mut b: usize = a + 1;
            while b < n
                invariant
                    n == idxs.len(),
                    a < n,
                    a + 1 <= b <= n,
                    forall|p: int, q: int| 0 <= p < q < n && p < a ==> idxs[p] != idxs[q],
                    forall|q: int| a < q < b ==> idxs[a as int] != idxs[q],
                decreases n - b,
            {
                if milestone_indices[a] == milestone_indices[b] {
                    return Err(Error::DuplicateMilestoneInRefund);
                }
                b = b + 1;
            }
            a = a + 1;
        }
        if contract_id == 0 || contract_id as usize > self.records.len() {
            return Err(Error::ContractNotFound);
        }
        let i = (contract_id - 1) as usize;
        let ghost old_view = self@;
        let ghost old_ms = self@.records[i as int].milestones;
        proof {
            lemma_record_bounds(self@.records[i as int]);
        }
        let len = self.records[i].milestones.len();
        let mut total: i128 = 0;
        let mut k: usize = 0;
        assert(idxs.take(0) =~= Seq::<u32>::empty());
        while k < n
            invariant
                n == idxs.len(),
                k <= n,
                len == old_ms.len(),
                self@ == old_view,
                old_ms == self@.records[i as int].milestones,
                refund_index_error(old_ms, idxs.take(k as int)) is None,
                total == indices_amount(old_ms, idxs.take(k as int)),
                0 <= total <= k * MAX_TOTAL_ESCROW_STROOPS,
            decreases n - k,
        {
            assert(idxs.take(k as int + 1).drop_last() =~= idxs.take(k as int));
            let idx = milestone_indices[k] as usize;
            if idx >= len {
                proof {
                    lemma_refund_error_extends(old_ms, idxs, k as int);
                }
                return Err(Error::IndexOutOfBounds);
            }
            let m = self.records[i].milestones[idx];
            if m.released {
                proof {
                    lemma_refund_error_extends(old_ms, idxs, k as int);
                }
                return Err(Error::AlreadyReleased);
            }
            if m.refunded {
                proof {
                    lemma_refund_error_extends(old_ms, idxs, k as int);
                }
                return Err(Error::AlreadyRefunded);
            }
            proof {
                assert(k * MAX_TOTAL_ESCROW_STROOPS + MAX_TOTAL_ESCROW_STROOPS == (k + 1)
                    * MAX_TOTAL_ESCROW_STROOPS) by (nonlinear_arith);
                assert((k + 1) * MAX_TOTAL_ESCROW_STROOPS <= 0x1_0000_0000_0000_0000
                    * MAX_TOTAL_ESCROW_STROOPS) by (nonlinear_arith)
                    requires
                        k < 0x1_0000_0000_0000_0000,
                ;
            }
            total = total + m.amount;
            k = k + 1;
        }
        assert(idxs.take(n as int) =~= idxs);
        let c = self.records[i].contract;
        let available = c.funded_amount - c.released_amount - c.refunded_amount;
        if available < total {
            return Err(Error::InsufficientFunds);
        }
        proof {
            lemma_refund_indices_valid(old_ms, idxs);
        }
        let mut rec = self.swap_record(i, Self::placeholder());
        let mut j: usize = 0;
        assert(mark_refunded(old_ms, idxs.take(0)) =~= old_ms);
        while j < n
            invariant
                n == idxs.len(),
                j <= n,
                len == old_ms.len(),
                rec.milestones@ == mark_refunded(old_ms, idxs.take(j as int)),
                rec.approvals@ == old_view.records[i as int].approvals,
                rec.reputation_issued == old_view.records[i as int].reputation_issued,
                rec.contract == c,
                refunded_total(rec.milestones@) == refunded_total(old_ms) + indices_amount(
                    old_ms,
                    idxs.take(j as int),
                ),
                released_total(rec.milestones@) == released_total(old_ms),
                total_amount(rec.milestones@) == total_amount(old_ms),
                forall|p: int, q: int| 0 <= p < q < n ==> idxs[p] != idxs[q],
                forall|q: int|
                    0 <= q < n ==> (#[trigger] idxs[q]) < old_ms.len() && !old_ms[idxs[q] as int].released
                        && !old_ms[idxs[q] as int].refunded,
            decreases n - j,
        {
            let idx = milestone_indices[j] as usize;
            let ghost cur = rec.milestones@;
            proof {
                assert(!idxs.take(j as int).contains(idxs[j as int])) by {
                    if idxs.take(j as int).contains(idxs[j as int]) {
                        let p = choose|p: int| 0 <= p < j && #[trigger] idxs.take(j as int)[p] == idxs[j as int];
                        assert(idxs[p] == idxs[j as int]);
                    }
                }
                assert(cur[idx as int] == old_ms[idx as int]);
            }
            let m = rec.milestones[idx];
            let new_m = Milestone { refunded: true, ..m };
            rec.milestones.set(idx, new_m);
            proof {
                lemma_sum_update(cur, idx as int, new_m, |q: Milestone| released_amount_of(q));
                lemma_sum_update(cur, idx as int, new_m, |q: Milestone| refunded_amount_of(q));
                lemma_sum_update(cur, idx as int, new_m, |q: Milestone| amount_of(q));
                assert(idxs.take(j as int + 1).drop_last() =~= idxs.take(j as int));
                assert forall|q: int| 0 <= q < len implies #[trigger] idxs.take(j as int + 1).contains(
                    q as u32,
                ) == (idxs.take(j as int).contains(q as u32) || q == idx) by {
                    if q == idx {
                        assert(idxs.take(j as int + 1)[j as int] == q as u32);
                    }
                    if idxs.take(j as int + 1).contains(q as u32) {
                        let p = choose|p: int|
                            0 <= p < j + 1 && #[trigger] idxs.take(j as int + 1)[p] == q as u32;
                        if p < j {
                            assert(idxs.take(j as int)[p] == q as u32);
                        }
                    }
                    if idxs.take(j as int).contains(q as u32) {
                        let p = choose|p: int| 0 <= p < j && #[trigger] idxs.take(j as int)[p] == q as u32;
                        assert(idxs.take(j as int + 1)[p] == q as u32);
                    }
                }
                assert(rec.milestones@ =~= mark_refunded(old_ms, idxs.take(j as int + 1)));
            }
            j = j + 1;
        }
        let settled = milestones_all_settled(&rec.milestones);
        let status = if settled {
            ContractStatus::Refunded
        } else {
            c.status
        };
        rec.contract = Contract { refunded_amount: c.refunded_amount + total, status, ..c };
        self.swap_record(i, rec);
        proof {
            let new_ms = mark_refunded(old_ms, idxs);
            assert(idxs.take(n as int) =~= idxs);
            let first = idxs[0] as int;
            assert(!old_ms[first].released && !old_ms[first].refunded);
            assert(!all_settled(old_ms));
            assert(idxs.contains(idxs[0]));
            assert(new_ms[first].refunded);
            assert(some_refunded(new_ms));
            assert forall|q: int| 0 <= q < new_ms.len() implies (#[trigger] new_ms[q]).amount > 0
                && !(new_ms[q].released && new_ms[q].refunded) by {
                if idxs.contains(q as u32) {
                    let p = choose|p: int| 0 <= p < n && #[trigger] idxs[p] == q as u32;
                    assert(!old_ms[idxs[p] as int].released);
                }
            }
            assert(self@ =~= old_view.after_refund(contract_id, idxs));
            assert forall|k2: int| 0 <= k2 < self@.records.len() implies record_wf(
                #[trigger] self@.records[k2],
            ) by {
                if k2 != i {
                    assert(self@.records[k2] == old_view.records[k2]);
                }
            }
        }
        Ok(total)
    }

    /// Position of the last reputation entry of `freelancer`, if any.
    fn find_reputation(&self, freelancer: Address) -> (r: Option<usize>)
        ensures
            match r {
                Some(j) => j == reputation_index(self@.reputations, freelancer) && j
                    < self@.reputations.len(),
                None => reputation_index(self@.reputations, freelancer) == -1,
            },
    {
        let mut j: usize = self.reputations.len();
        assert(self@.reputations.take(j as int) =~= self@.reputations);
        while j > 0
            invariant
                j <= self@.reputations.len(),
                reputation_index(self@.reputations, freelancer) == reputation_index(
                    self@.reputations.take(j as int),
                    freelancer,
                ),
            decreases j,
        {
            assert(self@.reputations.take(j as int).drop_last() =~= self@.reputations.take(j - 1));
            if self.reputations[j - 1].freelancer == freelancer {
                return Some(j - 1);
            }
            j = j - 1;
        }
        None
    }

    /// The reputation recorded for `freelancer`, if any.
    pub fn get_reputation(&self, freelancer: Address) -> (r: Option<Reputation>)
        ensures
            r == self@.reputation_of(freelancer),
    {
        match self.find_reputation(freelancer) {
            Some(j) => Some(self.reputations[j].reputation),
            None => None,
        }
    }

    /// The client rates the freelancer of a completed contract, once: the
    /// rating (1 to 5) is added to the freelancer's reputation.
    pub fn issue_reputation(&mut self, contract_id: u32, caller: Address, freelancer: Address, rating: u32) -> (r:
        Result<bool, Error>)
        requires
            old(self)@.wf(),
            old(self)@.reputation_has_room(freelancer),
        ensures
            final(self)@.wf(),
            old(self)@.settled_stays_settled(final(self)@),
            match old(self)@.reputation_error(contract_id, caller, freelancer, rating) {
                Some(e) => r == Err::<bool, Error>(e) && final(self)@ == old(self)@,
                None => r == Ok::<bool, Error>(true) && final(self)@ == old(self)@.after_reputation(
                    contract_id,
                    freelancer,
                    rating,
                ),
            },
    {
        if self.paused {
            return Err(Error::ContractPaused);
        }
        if contract_id == 0 || contract_id as usize > self.records.len() {
            return Err(Error::ContractNotFound);
        }
        let i = (contract_id - 1) as usize;
        let c = self.records[i].contract;
        if caller != c.client {
            return Err(Error::UnauthorizedRole);
        }
        if freelancer != c.freelancer {
            return Err(Error::FreelancerMismatch);
        }
        if c.status != ContractStatus::Completed {
            return Err(Error::InvalidState);
        }
        if rating < 1 || rating > MAX_RATING {
            return Err(Error::InvalidRating);
        }
        if self.records[i].reputation_issued {
            return Err(Error::ReputationAlreadyIssued);
        }
        let ghost old_view = self@;
        let mut rec = self.swap_record(i, Self::placeholder());
        rec.reputation_issued = true;
        self.swap_record(i, rec);
        match self.find_reputation(freelancer) {
            Some(j) => {
                let rep = self.reputations[j].reputation;
                self.reputations.set(
                    j,
                    ReputationEntry {
                        freelancer,
                        reputation: Reputation {
                            completed_contracts: rep.completed_contracts + 1,
                            total_rating: rep.total_rating + rating as u64,
                            last_rating: rating,
                        },
                    },
                );
            },
            None => {
                self.reputations.push(
                    ReputationEntry {
                        freelancer,
                        reputation: Reputation {
                            completed_contracts: 1,
                            total_rating: rating as u64,
                            last_rating: rating,
                        },
                    },
                );
            },
        }
        proof {
            assert(self@ =~= old_view.after_reputation(contract_id, freelancer, rating));
            assert forall|k: int| 0 <= k < self@.records.len() implies record_wf(
                #[trigger] self@.records[k],
            ) by {
                if k != i {
                    assert(self@.records[k] == old_view.records[k]);
                }
            }
        }
        Ok(true)
    }
}

} // verus!
