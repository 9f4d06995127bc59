//! Properties of the escrow that span operations, proved over the model.
use vstd::prelude::*;
use crate::approvals::{
    approval_live_until, approvals_sufficient, approve_error, expiry_after, may_release,
    no_approvals, with_approval, StoredApprovals,
};
use crate::model::{
    all_settled, amount_of, some_refunded, some_released, lemma_record_bounds, milestone_sum, record_wf,
    refunded_amount_of, refunded_total, released_amount_of, released_total, total_amount,
    EscrowView, lemma_reputation_index_bounds, lemma_reputation_index_push,
    lemma_reputation_index_update, protocol_fee, reputation_index, ReputationEntry,
    MAX_PROTOCOL_FEE_BPS,
};
use crate::dispute::{resolution_error, resolution_split, DisputeResolution};
use crate::ttl::{PENDING_APPROVAL_BUMP_THRESHOLD, PENDING_APPROVAL_TTL_LEDGERS};
use crate::types::{Address, Contract, ContractStatus, Error, Milestone, ReleaseAuthorization, Reputation};

verus! {

/// Every stored contract keeps its books: what was released plus what was
/// refunded never exceeds what was deposited, what was deposited never
/// exceeds the milestone total, and that total stays under the escrow cap.
pub proof fn law_accounting_is_bounded(s: EscrowView, id: u32)
    requires
        s.wf(),
        s.has_contract(id),
    ensures
        0 <= s.rec(id).contract.released_amount,
        0 <= s.rec(id).contract.refunded_amount,
        s.rec(id).contract.released_amount + s.rec(id).contract.refunded_amount
            <= s.rec(id).contract.funded_amount,
        0 <= s.rec(id).contract.available(),
        s.rec(id).contract.funded_amount <= total_amount(s.rec(id).milestones),
        total_amount(s.rec(id).milestones) <= crate::amount_validation::MAX_TOTAL_ESCROW_STROOPS,
        s.rec(id).contract.released_amount == released_total(s.rec(id).milestones),
        s.rec(id).contract.refunded_amount == refunded_total(s.rec(id).milestones),
{
    lemma_record_bounds(s.rec(id));
}

/// A contract's status tells how far it has been settled: a `Created`
/// contract is still short of its total, a `Funded` one holds exactly its
/// total, a `Completed` one (settled by a release) has every milestone
/// settled with at least one released, and a `Refunded` one (settled by a
/// refund) has every milestone settled with at least one refunded. No
/// operation produces a `Disputed` contract.
pub proof fn law_status_reflects_settlement(s: EscrowView, id: u32)
    requires
        s.wf(),
        s.has_contract(id),
    ensures
        ({
            let c = s.rec(id).contract;
            let ms = s.rec(id).milestones;
            &&& c.status == ContractStatus::Created ==> c.funded_amount < total_amount(ms)
                && !all_settled(ms)
            &&& c.status == ContractStatus::Funded ==> c.funded_amount == total_amount(ms)
                && !all_settled(ms)
            &&& c.status == ContractStatus::Completed ==> all_settled(ms) && some_released(ms)
            &&& c.status == ContractStatus::Refunded ==> all_settled(ms) && some_refunded(ms)
            &&& c.status != ContractStatus::Disputed
        }),
{
    assert(record_wf(s.records[id - 1]));
}

/// Released, refunded and one unsettled milestone together never exceed the total.
proof fn lemma_settled_plus_one_le_total(ms: Seq<Milestone>, i: int)
    requires
        0 <= i < ms.len(),
        !ms[i].released && !ms[i].refunded,
        forall|j: int|
            0 <= j < ms.len() ==> (#[trigger] ms[j]).amount > 0 && !(ms[j].released && ms[j].refunded),
    ensures
        released_total(ms) + refunded_total(ms) + ms[i].amount <= total_amount(ms),
    decreases ms.len(),
{
    let rel = |m: Milestone| released_amount_of(m);
    let refd = |m: Milestone| refunded_amount_of(m);
    let amt = |m: Milestone| amount_of(m);
    let init = ms.drop_last();
    assert forall|j: int| 0 <= j < init.len() implies (#[trigger] init[j]).amount > 0 && !(
    init[j].released && init[j].refunded) by {
        assert(init[j] == ms[j]);
    }
    if i == ms.len() - 1 {
        lemma_settled_le_total(init);
    } else {
        assert(init[i] == ms[i]);
        lemma_settled_plus_one_le_total(init, i);
    }
    assert(milestone_sum(ms, rel) == milestone_sum(init, rel) + rel(ms.last()));
    assert(milestone_sum(ms, refd) == milestone_sum(init, refd) + refd(ms.last()));
    assert(milestone_sum(ms, amt) == milestone_sum(init, amt) + amt(ms.last()));
}

/// Released and refunded together never exceed the total.
proof fn lemma_settled_le_total(ms: Seq<Milestone>)
    requires
        forall|j: int|
            0 <= j < ms.len() ==> (#[trigger] ms[j]).amount > 0 && !(ms[j].released && ms[j].refunded),
    ensures
        released_total(ms) + refunded_total(ms) <= total_amount(ms),
    decreases ms.len(),
{
    if ms.len() > 0 {
        let init = ms.drop_last();
        assert forall|j: int| 0 <= j < init.len() implies (#[trigger] init[j]).amount > 0 && !(
        init[j].released && init[j].refunded) by {
            assert(init[j] == ms[j]);
        }
        lemma_settled_le_total(init);
        let last = ms.last();
        assert(!(last.released && last.refunded));
    }
}

/// A funded contract always holds enough for any unsettled milestone, so
/// an authorized, approved release of it is never refused for lack of funds.
pub proof fn law_funded_contract_covers_every_milestone(s: EscrowView, id: u32, index: int)
    requires
        s.wf(),
        s.has_contract(id),
        s.rec(id).contract.status == ContractStatus::Funded,
        0 <= index < s.rec(id).milestones.len(),
        !s.rec(id).milestones[index].released,
        !s.rec(id).milestones[index].refunded,
    ensures
        s.rec(id).milestones[index].amount <= s.rec(id).contract.available(),
{
    let r = s.rec(id);
    assert(record_wf(s.records[id - 1]));
    lemma_settled_plus_one_le_total(r.milestones, index);
}

/// While the escrow is paused, every operation that would change a
/// contract is refused with `ContractPaused`.
pub proof fn law_pause_blocks_contract_operations(
    s: EscrowView,
    id: u32,
    caller: Address,
    other: Address,
    arbiter: Option<Address>,
    amounts: Seq<i128>,
    mode: ReleaseAuthorization,
    amount: i128,
    index: u32,
    ledger: u32,
    indices: Seq<u32>,
    rating: u32,
)
    requires
        s.paused,
    ensures
        s.create_error(caller, other, arbiter, amounts, mode) == Some(Error::ContractPaused),
        s.deposit_error(id, caller, amount) == Some(Error::ContractPaused),
        s.approve_error(id, caller, index, ledger) == Some(Error::ContractPaused),
        s.release_error(id, caller, index, ledger) == Some(Error::ContractPaused),
        s.refund_error(id, indices) == Some(Error::ContractPaused),
        s.reputation_error(id, caller, other, rating) == Some(Error::ContractPaused),
{
}

/// An emergency always keeps the escrow paused, and the pause cannot be
/// lifted until the emergency is resolved.
pub proof fn law_emergency_holds_pause(s: EscrowView)
    requires
        s.wf(),
        s.emergency,
    ensures
        s.paused,
        s.unpause_error() == Some(Error::EmergencyActive),
{
}

/// Initialization succeeds once: afterwards it is always refused.
pub proof fn law_initialize_only_once(s: EscrowView, admin: Address)
    requires
        s.initialize_error() is None,
    ensures
        s.after_initialize(admin).initialize_error() == Some(Error::AlreadyInitialized),
{
}

/// A released milestone cannot be released again: whoever asks, on
/// whatever ledger, the second release is refused.
pub proof fn law_no_double_release(
    s: EscrowView,
    id: u32,
    caller: Address,
    index: u32,
    ledger: u32,
    caller2: Address,
    ledger2: u32,
)
    requires
        s.wf(),
        s.release_error(id, caller, index, ledger) is None,
    ensures
        s.after_release(id, index).release_error(id, caller2, index, ledger2) is Some,
        s.after_release(id, index).live_approvals_of(id, index, ledger2) is None,
{
}

/// A released milestone cannot then be refunded, and a refunded milestone
/// cannot then be released: each milestone is paid out at most once.
pub proof fn law_milestone_paid_at_most_once(
    s: EscrowView,
    id: u32,
    caller: Address,
    index: u32,
    ledger: u32,
    indices: Seq<u32>,
)
    requires
        s.wf(),
    ensures
        s.release_error(id, caller, index, ledger) is None ==> s.after_release(id, index).refund_error(
            id,
            indices,
        ) is Some || !indices.contains(index),
        s.refund_error(id, indices) is None && indices.contains(index) ==> s.after_refund(
            id,
            indices,
        ).release_error(id, caller, index, ledger) is Some,
{
    if s.release_error(id, caller, index, ledger) is None && indices.contains(index) {
        let t = s.after_release(id, index);
        if t.refund_error(id, indices) is None {
            assert(!t.paused && indices.len() > 0);
            let p = choose|p: int| 0 <= p < indices.len() && indices[p] == index;
            crate::model::lemma_refund_indices_valid(t.rec(id).milestones, indices);
            assert(indices[p] == index);
        }
    }
    if s.refund_error(id, indices) is None && indices.contains(index) {
        let t = s.after_refund(id, indices);
        let p = choose|p: int| 0 <= p < indices.len() && indices[p] == index;
        crate::model::lemma_refund_indices_valid(s.rec(id).milestones, indices);
        assert(indices[p] == index);
        if index < t.rec(id).milestones.len() {
            assert(t.rec(id).milestones[index as int].refunded);
        }
    }
}

/// Approvals expire. After an approval on `ledger` the milestone's
/// approvals count at least through `ledger + PENDING_APPROVAL_BUMP_THRESHOLD`;
/// a first approval (no live record before) counts through
/// `ledger + PENDING_APPROVAL_TTL_LEDGERS` and no later; and once the record
/// has expired, a release that relies on it is refused.
pub proof fn law_approvals_expire(
    s: EscrowView,
    id: u32,
    approver: Address,
    index: u32,
    ledger: u32,
    releaser: Address,
    later: u32,
)
    requires
        s.wf(),
        s.approve_error(id, approver, index, ledger) is None,
    ensures
        ({
            let t = s.after_approve(id, approver, index, ledger);
            &&& ledger <= later <= ledger + PENDING_APPROVAL_BUMP_THRESHOLD ==> t.live_approvals_of(
                id,
                index,
                later,
            ) is Some
            &&& s.live_approvals_of(id, index, ledger) is None && ledger <= later <= expiry_after(
                ledger,
                PENDING_APPROVAL_TTL_LEDGERS,
            ) ==> t.live_approvals_of(id, index, later) is Some
            &&& s.live_approvals_of(id, index, ledger) is None && later > expiry_after(
                ledger,
                PENDING_APPROVAL_TTL_LEDGERS,
            ) ==> t.live_approvals_of(id, index, later) is None
            &&& later > t.rec(id).approvals[index as int].unwrap().live_until_ledger
                ==> t.release_error(id, releaser, index, later) is Some
        }),
{
    assert(record_wf(s.records[id - 1]));
}

/// A release that would rely on an approval record that has expired is
/// refused with `ApprovalExpired`, and one on a milestone never approved
/// (or whose approvals were consumed) with `InsufficientApprovals`.
pub proof fn law_expired_approvals_are_reported(s: EscrowView, id: u32, caller: Address, index: u32, ledger: u32)
    requires
        !s.paused,
        s.has_contract(id),
        s.rec(id).contract.status == ContractStatus::Funded,
        may_release(s.rec(id).contract, caller),
        index < s.rec(id).milestones.len(),
        index < s.rec(id).approvals.len(),
        !s.rec(id).milestones[index as int].released,
    ensures
        s.rec(id).approvals[index as int] matches Some(st) && ledger > st.live_until_ledger
            ==> s.release_error(id, caller, index, ledger) == Some(Error::ApprovalExpired),
        s.rec(id).approvals[index as int] is None ==> s.release_error(id, caller, index, ledger)
            == Some(Error::InsufficientApprovals),
{
}

/// A release moves exactly one milestone's amount from what the contract
/// holds to what it has released, collects exactly that release's protocol
/// fee (never more than the amount), and leaves the funding and refunds alone.
pub proof fn law_release_moves_exactly_one_milestone(
    s: EscrowView,
    id: u32,
    caller: Address,
    index: u32,
    ledger: u32,
)
    requires
        s.wf(),
        s.release_error(id, caller, index, ledger) is None,
    ensures
        ({
            let t = s.after_release(id, index);
            let amount = s.rec(id).milestones[index as int].amount;
            &&& t.rec(id).contract.funded_amount == s.rec(id).contract.funded_amount
            &&& t.rec(id).contract.released_amount == s.rec(id).contract.released_amount + amount
            &&& t.rec(id).contract.refunded_amount == s.rec(id).contract.refunded_amount
            &&& 0 <= t.rec(id).contract.released_amount
            &&& 0 <= t.rec(id).contract.refunded_amount
            &&& t.rec(id).contract.released_amount + t.rec(id).contract.refunded_amount
                <= t.rec(id).contract.funded_amount
            &&& t.rec(id).contract.available() == s.rec(id).contract.available() - amount
            &&& 0 <= s.release_fee(id, index) <= amount
            &&& s.accumulated_protocol_fees + s.release_fee(id, index) <= i128::MAX
                ==> t.accumulated_protocol_fees == s.accumulated_protocol_fees + s.release_fee(
                id,
                index,
            )
        }),
{
    let r = s.rec(id);
    assert(record_wf(s.records[id - 1]));
    lemma_record_bounds(r);
    law_funded_contract_covers_every_milestone(s, id, index as int);
    crate::model::lemma_protocol_fee_bounds(r.milestones[index as int].amount as int, s.protocol_fee_bps as int);
}

/// A release succeeds only on live approvals that suffice for the
/// contract's mode; under `MultiSig` both client and freelancer must have
/// approved, so no single party releases alone.
pub proof fn law_release_needs_sufficient_approvals(
    s: EscrowView,
    id: u32,
    caller: Address,
    index: u32,
    ledger: u32,
)
    requires
        s.wf(),
        s.release_error(id, caller, index, ledger) is None,
    ensures
        s.live_approvals_of(id, index, ledger) is Some,
        approvals_sufficient(
            s.rec(id).contract.release_authorization,
            s.live_approvals_of(id, index, ledger).unwrap(),
        ),
        s.rec(id).contract.release_authorization == ReleaseAuthorization::MultiSig ==> {
            &&& s.live_approvals_of(id, index, ledger).unwrap().client_approved
            &&& s.live_approvals_of(id, index, ledger).unwrap().freelancer_approved
        },
        s.rec(id).contract.release_authorization == ReleaseAuthorization::ClientOnly
            ==> s.live_approvals_of(id, index, ledger).unwrap().client_approved,
        s.rec(id).contract.release_authorization == ReleaseAuthorization::ArbiterOnly
            ==> s.live_approvals_of(id, index, ledger).unwrap().arbiter_approved,
        s.rec(id).contract.release_authorization == ReleaseAuthorization::ClientAndArbiter
            ==> s.live_approvals_of(id, index, ledger).unwrap().client_approved
            || s.live_approvals_of(id, index, ledger).unwrap().arbiter_approved,
{
    assert(record_wf(s.records[id - 1]));
}

/// A contract's reputation is issued at most once, and only for a
/// completed contract.
pub proof fn law_reputation_once_per_contract(
    s: EscrowView,
    id: u32,
    caller: Address,
    freelancer: Address,
    rating: u32,
    caller2: Address,
    rating2: u32,
)
    requires
        s.wf(),
        s.reputation_error(id, caller, freelancer, rating) is None,
    ensures
        s.rec(id).contract.status == ContractStatus::Completed,
        s.after_reputation(id, freelancer, rating).reputation_error(id, caller2, freelancer, rating2)
            is Some,
{
}

/// A new contract gets the next id, and reading it back gives the
/// contract as created: the parties, the mode, nothing funded, released or
/// refunded, and every milestone unsettled.
pub proof fn law_created_contract_reads_back(
    s: EscrowView,
    client: Address,
    freelancer: Address,
    arbiter: Option<Address>,
    amounts: Seq<i128>,
    mode: ReleaseAuthorization,
)
    requires
        s.create_error(client, freelancer, arbiter, amounts, mode) is None,
    ensures
        ({
            let t = s.after_create(client, freelancer, arbiter, amounts, mode);
            let id = (s.records.len() + 1) as u32;
            &&& s.records.len() + 1 <= u32::MAX ==> t.has_contract(id)
            &&& t.records.last().contract.client == client
            &&& t.records.last().contract.freelancer == freelancer
            &&& t.records.last().contract.arbiter == arbiter
            &&& t.records.last().contract.release_authorization == mode
            &&& t.records.last().contract.status == ContractStatus::Created
            &&& t.records.last().contract.funded_amount == 0
            &&& t.records.last().milestones.len() == amounts.len()
            &&& forall|i: int|
                0 <= i < amounts.len() ==> (#[trigger] t.records.last().milestones[i]).amount
                    == amounts[i] && !t.records.last().milestones[i].released
                    && !t.records.last().milestones[i].refunded
            &&& forall|k: int| 0 <= k < s.records.len() ==> t.records[k] == s.records[k]
        }),
{
}

/// Contract ids are handed out consecutively: two creations in a row get
/// ids `n + 1` and `n + 2`, each reads back with its own parties, and the
/// second creation leaves the first contract untouched.
pub proof fn law_ids_are_consecutive(
    s: EscrowView,
    c1: Address,
    f1: Address,
    a1: Option<Address>,
    amounts1: Seq<i128>,
    mode1: ReleaseAuthorization,
    c2: Address,
    f2: Address,
    a2: Option<Address>,
    amounts2: Seq<i128>,
    mode2: ReleaseAuthorization,
)
    requires
        s.create_error(c1, f1, a1, amounts1, mode1) is None,
        s.after_create(c1, f1, a1, amounts1, mode1).create_error(c2, f2, a2, amounts2, mode2) is None,
        s.records.len() + 2 <= u32::MAX,
    ensures
        ({
            let t = s.after_create(c1, f1, a1, amounts1, mode1);
            let u = t.after_create(c2, f2, a2, amounts2, mode2);
            let id1 = (s.records.len() + 1) as u32;
            let id2 = (t.records.len() + 1) as u32;
            &&& id2 == id1 + 1
            &&& u.has_contract(id1) && u.has_contract(id2)
            &&& u.rec(id1) == t.rec(id1)
            &&& u.rec(id1).contract.client == c1 && u.rec(id1).contract.freelancer == f1
            &&& u.rec(id2).contract.client == c2 && u.rec(id2).contract.freelancer == f2
            &&& forall|k: int| 0 <= k < s.records.len() ==> u.records[k] == s.records[k]
        }),
{
}

/// Approving through the ledger gives exactly the outcome of the approval
/// decision on the contract, its milestones and the approvals live on
/// `ledger`: its error, or its flags stored with the record's new expiry.
pub proof fn law_approve_follows_the_approval_decision(
    s: EscrowView,
    id: u32,
    caller: Address,
    index: u32,
    ledger: u32,
)
    requires
        s.wf(),
        !s.paused,
        s.has_contract(id),
    ensures
        s.approve_error(id, caller, index, ledger) == approve_error(
            s.rec(id).contract,
            s.rec(id).milestones,
            index,
            caller,
            s.live_approvals_of(id, index, ledger),
        ),
        s.approve_error(id, caller, index, ledger) is None ==> s.after_approve(
            id,
            caller,
            index,
            ledger,
        ).rec(id).approvals[index as int] == Some(
            StoredApprovals {
                approvals: with_approval(
                    s.rec(id).contract,
                    caller,
                    s.live_approvals_of(id, index, ledger).unwrap_or(no_approvals()),
                ),
                live_until_ledger: approval_live_until(s.rec(id).approvals[index as int], ledger),
            },
        ),
{    assert(record_wf(s.records[id - 1]));
}

/// An approval keeps the milestone's record alive for
/// `PENDING_APPROVAL_TTL_LEDGERS` ledgers from the approving ledger (stopping
/// at `u32::MAX`) whenever there was no live record or at most
/// `PENDING_APPROVAL_BUMP_THRESHOLD` ledgers of it remained; otherwise the
/// record keeps the expiry it had. Either way it is live on the approving
/// ledger, and it never lives beyond `PENDING_APPROVAL_TTL_LEDGERS` ledgers
/// from the approving ledger unless the record it replaces already did.
pub proof fn law_approval_expiry_is_renewed_from_the_approving_ledger(
    s: EscrowView,
    id: u32,
    caller: Address,
    index: u32,
    ledger: u32,
)
    requires
        s.wf(),
        s.approve_error(id, caller, index, ledger) is None,
    ensures
        ({
            let prior = s.rec(id).approvals[index as int];
            let t = s.after_approve(id, caller, index, ledger);
            let until = t.rec(id).approvals[index as int].unwrap().live_until_ledger;
            let renewed = if ledger + PENDING_APPROVAL_TTL_LEDGERS <= u32::MAX {
                ledger + PENDING_APPROVAL_TTL_LEDGERS
            } else {
                u32::MAX as int
            };
            &&& t.rec(id).approvals[index as int] is Some
            &&& ledger <= until
            &&& prior is None || ledger > prior.unwrap().live_until_ledger
                || prior.unwrap().live_until_ledger - ledger <= PENDING_APPROVAL_BUMP_THRESHOLD
                ==> until == renewed
            &&& prior is Some && ledger <= prior.unwrap().live_until_ledger
                && prior.unwrap().live_until_ledger - ledger > PENDING_APPROVAL_BUMP_THRESHOLD
                ==> until == prior.unwrap().live_until_ledger
            &&& prior is None || prior.unwrap().live_until_ledger <= ledger + PENDING_APPROVAL_TTL_LEDGERS
                ==> until <= ledger + PENDING_APPROVAL_TTL_LEDGERS
        }),
{
    assert(record_wf(s.records[id - 1]));
}

/// What each dispute resolution pays out of what the contract still holds
/// (`funded - released - refunded`), as (client, freelancer): a full refund
/// gives it all to the client, a full payout all to the freelancer, a
/// partial refund 30% (rounded down) to the freelancer and the rest to the
/// client, and a split exactly the two amounts asked for.
pub proof fn law_dispute_payouts(c: Contract, client_amount: i128, freelancer_amount: i128)
    ensures
        ({
            let held = c.funded_amount - c.released_amount - c.refunded_amount;
            &&& resolution_error(c, DisputeResolution::FullRefund) is None
                ==> resolution_split(c, DisputeResolution::FullRefund) == (held, 0int)
            &&& resolution_error(c, DisputeResolution::FullPayout) is None
                ==> resolution_split(c, DisputeResolution::FullPayout) == (0int, held)
            &&& resolution_error(c, DisputeResolution::PartialRefund) is None
                ==> resolution_split(c, DisputeResolution::PartialRefund) == (
                held - held * 30 / 100,
                held * 30 / 100,
            )
            &&& resolution_error(c, DisputeResolution::Split(client_amount, freelancer_amount))
                is None ==> resolution_split(
                c,
                DisputeResolution::Split(client_amount, freelancer_amount),
            ) == (client_amount as int, freelancer_amount as int)
                && client_amount + freelancer_amount == held
        }),
{
}

/// A freelancer's reputation accumulates: issuing a rating counts one more
/// completed contract, adds the rating to the running total (starting from
/// nothing for a freelancer never rated), and records it as the last
/// rating; every other freelancer's reputation is unchanged.
pub proof fn law_reputation_accumulates(
    s: EscrowView,
    id: u32,
    caller: Address,
    freelancer: Address,
    rating: u32,
    other: Address,
)
    requires
        s.wf(),
        s.reputation_has_room(freelancer),
        s.reputation_error(id, caller, freelancer, rating) is None,
    ensures
        ({
            let t = s.after_reputation(id, freelancer, rating);
            let before = s.reputation_of(freelancer);
            &&& t.reputation_of(freelancer) is Some
            &&& t.reputation_of(freelancer).unwrap().completed_contracts == match before {
                Some(p) => p.completed_contracts + 1,
                None => 1,
            }
            &&& t.reputation_of(freelancer).unwrap().total_rating == match before {
                Some(p) => p.total_rating + rating,
                None => rating as int,
            }
            &&& t.reputation_of(freelancer).unwrap().last_rating == rating
            &&& other != freelancer ==> t.reputation_of(other) == s.reputation_of(other)
        }),
{
    let entries = s.reputations;
    let i = reputation_index(entries, freelancer);
    lemma_reputation_index_bounds(entries, freelancer);
    if i >= 0 {
        let rep = entries[i].reputation;
        let e = ReputationEntry {
            freelancer,
            reputation: Reputation {
                completed_contracts: (rep.completed_contracts + 1) as u64,
                total_rating: (rep.total_rating + rating) as u64,
                last_rating: rating,
            },
        };
        lemma_reputation_index_update(entries, e, freelancer);
        lemma_reputation_index_update(entries, e, other);
    } else {
        let e = ReputationEntry {
            freelancer,
            reputation: Reputation { completed_contracts: 1, total_rating: rating as u64, last_rating: rating },
        };
        lemma_reputation_index_push(entries, e, freelancer);
        lemma_reputation_index_push(entries, e, other);
    }
    lemma_reputation_index_bounds(s.after_reputation(id, freelancer, rating).reputations, other);
    lemma_reputation_index_bounds(entries, other);
}

/// Who may approve a milestone of a funded contract under each release
/// mode: `ClientOnly` the client, `ArbiterOnly` the arbiter,
/// `ClientAndArbiter` the client or the arbiter, `MultiSig` the client or
/// the freelancer. Anyone else is refused with `UnauthorizedRole`, and no
/// one of those roles is.
pub proof fn law_approval_roles(s: EscrowView, id: u32, caller: Address, index: u32, ledger: u32)
    requires
        s.wf(),
        !s.paused,
        s.has_contract(id),
        s.rec(id).contract.status == ContractStatus::Funded,
        index < s.rec(id).milestones.len(),
        !s.rec(id).milestones[index as int].released,
    ensures
        ({
            let c = s.rec(id).contract;
            let allowed = match c.release_authorization {
                ReleaseAuthorization::ClientOnly => caller == c.client,
                ReleaseAuthorization::ArbiterOnly => c.arbiter == Some(caller),
                ReleaseAuthorization::ClientAndArbiter => caller == c.client || c.arbiter == Some(
                    caller,
                ),
                ReleaseAuthorization::MultiSig => caller == c.client || caller == c.freelancer,
            };
            s.approve_error(id, caller, index, ledger) == Some(Error::UnauthorizedRole) <==> !allowed
        }),
{
    assert(record_wf(s.records[id - 1]));
}

/// Who may release a milestone of a funded contract under each release
/// mode: `ClientOnly` the client, `ArbiterOnly` the arbiter,
/// `ClientAndArbiter` the client or the arbiter, `MultiSig` the client or
/// the freelancer. Anyone else is refused with `UnauthorizedRole`, and no
/// one of those roles is.
pub proof fn law_release_roles(s: EscrowView, id: u32, caller: Address, index: u32, ledger: u32)
    requires
        s.wf(),
        !s.paused,
        s.has_contract(id),
        s.rec(id).contract.status == ContractStatus::Funded,
    ensures
        ({
            let c = s.rec(id).contract;
            let allowed = match c.release_authorization {
                ReleaseAuthorization::ClientOnly => caller == c.client,
                ReleaseAuthorization::ArbiterOnly => c.arbiter == Some(caller),
                ReleaseAuthorization::ClientAndArbiter => caller == c.client || c.arbiter == Some(
                    caller,
                ),
                ReleaseAuthorization::MultiSig => caller == c.client || caller == c.freelancer,
            };
            s.release_error(id, caller, index, ledger) == Some(Error::UnauthorizedRole) <==> !allowed
        }),
{
    assert(record_wf(s.records[id - 1]));
}

/// The protocol fee is the exact share `fee_bps / 10000` of the amount,
/// rounded up: the smallest whole fee that covers the share.
pub proof fn law_protocol_fee_rounds_up(amount: int, fee_bps: int)
    requires
        0 <= amount,
        0 <= fee_bps <= MAX_PROTOCOL_FEE_BPS,
    ensures
        protocol_fee(amount, fee_bps) * 10000 >= amount * fee_bps,
        protocol_fee(amount, fee_bps) * 10000 < amount * fee_bps + 10000,
{
    let x = amount * fee_bps;
    vstd::arithmetic::mul::lemma_mul_nonnegative(amount, fee_bps);
    let f = (x + 9999) / 10000;
    vstd::arithmetic::div_mod::lemma_fundamental_div_mod(x + 9999, 10000);
    vstd::arithmetic::div_mod::lemma_mod_bound(x + 9999, 10000);
    assert(f * 10000 <= x + 9999 < f * 10000 + 10000);
}

/// An approval sets exactly the approving party's own flag on top of the
/// approvals still live on that ledger (none, if they expired), and that
/// flag was not yet set.
pub proof fn law_approval_sets_only_the_callers_flag(
    s: EscrowView,
    id: u32,
    caller: Address,
    index: u32,
    ledger: u32,
)
    requires
        s.wf(),
        s.approve_error(id, caller, index, ledger) is None,
    ensures
        ({
            let c = s.rec(id).contract;
            let before = s.live_approvals_of(id, index, ledger);
            let was_client = before is Some && before.unwrap().client_approved;
            let was_freelancer = before is Some && before.unwrap().freelancer_approved;
            let was_arbiter = before is Some && before.unwrap().arbiter_approved;
            let now = s.after_approve(id, caller, index, ledger).rec(id).approvals[index as int].unwrap().approvals;
            &&& now.client_approved == (was_client || caller == c.client)
            &&& now.freelancer_approved == (was_freelancer || caller == c.freelancer)
            &&& now.arbiter_approved == (was_arbiter || c.arbiter == Some(caller))
            &&& caller == c.client ==> !was_client
            &&& caller == c.freelancer ==> !was_freelancer
            &&& c.arbiter == Some(caller) ==> !was_arbiter
        }),
{
    assert(record_wf(s.records[id - 1]));
}

/// A refund marks exactly the requested milestones refunded and touches
/// nothing else of them: amounts and releases stay, and so does every
/// milestone not requested.
pub proof fn law_refund_marks_exactly_the_requested_milestones(s: EscrowView, id: u32, indices: Seq<u32>)
    requires
        s.wf(),
        s.refund_error(id, indices) is None,
    ensures
        ({
            let old_ms = s.rec(id).milestones;
            let new_ms = s.after_refund(id, indices).rec(id).milestones;
            &&& new_ms.len() == old_ms.len()
            &&& forall|j: int|
                0 <= j < old_ms.len() ==> {
                    &&& (#[trigger] new_ms[j]).amount == old_ms[j].amount
                    &&& new_ms[j].released == old_ms[j].released
                    &&& new_ms[j].refunded == (old_ms[j].refunded || exists|k: int|
                        0 <= k < indices.len() && indices[k] == j)
                }
        }),
{
    let old_ms = s.rec(id).milestones;
    let new_ms = s.after_refund(id, indices).rec(id).milestones;
    assert forall|j: int| 0 <= j < old_ms.len() implies (#[trigger] new_ms[j]).refunded == (
    old_ms[j].refunded || exists|k: int| 0 <= k < indices.len() && indices[k] == j) by {
        crate::model::lemma_refund_indices_valid(old_ms, indices);
        if exists|k: int| 0 <= k < indices.len() && indices[k] == j {
            let k = choose|k: int| 0 <= k < indices.len() && indices[k] == j;
            assert(indices.contains(j as u32));
        }
        if indices.contains(j as u32) {
            let k = choose|k: int| 0 <= k < indices.len() && indices[k] == j as u32;
            assert(indices[k] == j);
        }
    }
}

} // verus!
