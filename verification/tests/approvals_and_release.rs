use escrow::{
    approve_milestone, check_approvals, clear_approvals, Address, Contract, ContractStatus, Error,
    Escrow, Milestone, MilestoneApprovals, ReleaseAuthorization, StoredApprovals,
    PENDING_APPROVAL_TTL_LEDGERS,
};

/// An approval record that is live on every ledger.
fn live(a: MilestoneApprovals) -> Option<StoredApprovals> {
    Some(StoredApprovals { approvals: a, live_until_ledger: u32::MAX })
}

const LEDGER: u32 = 10_000;

fn participants() -> (Address, Address, Address) {
    (Address(1), Address(2), Address(3))
}

fn milestones() -> [i128; 2] {
    [500_0000000, 300_0000000]
}

fn total() -> i128 {
    800_0000000
}

/// A funded contract in the given mode whose milestone 0 carries the
/// approvals its mode needs.
fn create(escrow: &mut Escrow, client_addr: Address, freelancer_addr: Address, arbiter: Option<Address>, auth: ReleaseAuthorization) -> u32 {
    let id = escrow.create_contract(client_addr, freelancer_addr, arbiter, &milestones(), auth).unwrap();
    assert_eq!(escrow.deposit_funds(id, client_addr, total()), Ok(true));
    match auth {
        ReleaseAuthorization::ClientOnly | ReleaseAuthorization::ClientAndArbiter => {
            assert_eq!(escrow.approve_milestone_release(id, client_addr, 0, LEDGER), Ok(true));
        }
        ReleaseAuthorization::ArbiterOnly => {
            assert_eq!(escrow.approve_milestone_release(id, arbiter.unwrap(), 0, LEDGER), Ok(true));
        }
        ReleaseAuthorization::MultiSig => {
            assert_eq!(escrow.approve_milestone_release(id, client_addr, 0, LEDGER), Ok(true));
            assert_eq!(escrow.approve_milestone_release(id, freelancer_addr, 0, LEDGER), Ok(true));
        }
    }
    id
}

// ─── ClientOnly ──────────────────────────────────────────────────────────────

#[test]
fn client_only_client_can_release() {
    let mut escrow = Escrow::new();
    let (c, f, _) = participants();
    let id = create(&mut escrow, c, f, None, ReleaseAuthorization::ClientOnly);
    assert_eq!(escrow.release_milestone(id, c, 0, LEDGER), Ok(true));
    assert_eq!(escrow.get_contract(id).unwrap().released_amount, 500_0000000);
}

#[test]
fn client_only_freelancer_rejected() {
    let mut escrow = Escrow::new();
    let (c, f, _) = participants();
    let id = create(&mut escrow, c, f, None, ReleaseAuthorization::ClientOnly);
    assert_eq!(escrow.release_milestone(id, f, 0, LEDGER), Err(Error::UnauthorizedRole));
}

#[test]
fn client_only_arbiter_rejected() {
    let mut escrow = Escrow::new();
    let (c, f, a) = participants();
    let id = create(&mut escrow, c, f, Some(a), ReleaseAuthorization::ClientOnly);
    assert_eq!(escrow.release_milestone(id, a, 0, LEDGER), Err(Error::UnauthorizedRole));
}

#[test]
fn client_only_attacker_rejected() {
    let mut escrow = Escrow::new();
    let (c, f, _) = participants();
    let id = create(&mut escrow, c, f, None, ReleaseAuthorization::ClientOnly);
    assert_eq!(escrow.release_milestone(id, Address(666), 0, LEDGER), Err(Error::UnauthorizedRole));
}

// ─── ArbiterOnly ─────────────────────────────────────────────────────────────

#[test]
fn arbiter_only_arbiter_can_release() {
    let mut escrow = Escrow::new();
    let (c, f, a) = participants();
    let id = create(&mut escrow, c, f, Some(a), ReleaseAuthorization::ArbiterOnly);
    assert_eq!(escrow.release_milestone(id, a, 0, LEDGER), Ok(true));
}

#[test]
fn arbiter_only_client_rejected() {
    let mut escrow = Escrow::new();
    let (c, f, a) = participants();
    let id = create(&mut escrow, c, f, Some(a), ReleaseAuthorization::ArbiterOnly);
    assert_eq!(escrow.release_milestone(id, c, 0, LEDGER), Err(Error::UnauthorizedRole));
}

#[test]
fn arbiter_only_freelancer_rejected() {
    let mut escrow = Escrow::new();
    let (c, f, a) = participants();
    let id = create(&mut escrow, c, f, Some(a), ReleaseAuthorization::ArbiterOnly);
    assert_eq!(escrow.release_milestone(id, f, 0, LEDGER), Err(Error::UnauthorizedRole));
}

#[test]
fn arbiter_only_attacker_rejected() {
    let mut escrow = Escrow::new();
    let (c, f, a) = participants();
    let id = create(&mut escrow, c, f, Some(a), ReleaseAuthorization::ArbiterOnly);
    assert_eq!(escrow.release_milestone(id, Address(666), 0, LEDGER), Err(Error::UnauthorizedRole));
}

// ─── ClientAndArbiter ────────────────────────────────────────────────────────

#[test]
fn client_and_arbiter_client_can_release() {
    let mut escrow = Escrow::new();
    let (c, f, a) = participants();
    let id = create(&mut escrow, c, f, Some(a), ReleaseAuthorization::ClientAndArbiter);
    assert_eq!(escrow.release_milestone(id, c, 0, LEDGER), Ok(true));
}

#[test]
fn client_and_arbiter_arbiter_can_release() {
    let mut escrow = Escrow::new();
    let (c, f, a) = participants();
    let id = create(&mut escrow, c, f, Some(a), ReleaseAuthorization::ClientAndArbiter);
    assert_eq!(escrow.release_milestone(id, a, 0, LEDGER), Ok(true));
    assert!(escrow.get_milestones(id).unwrap()[0].released);
}

#[test]
fn client_and_arbiter_freelancer_rejected() {
    let mut escrow = Escrow::new();
    let (c, f, a) = participants();
    let id = create(&mut escrow, c, f, Some(a), ReleaseAuthorization::ClientAndArbiter);
    assert_eq!(escrow.release_milestone(id, f, 0, LEDGER), Err(Error::UnauthorizedRole));
}

#[test]
fn client_and_arbiter_attacker_rejected() {
    let mut escrow = Escrow::new();
    let (c, f, a) = participants();
    let id = create(&mut escrow, c, f, Some(a), ReleaseAuthorization::ClientAndArbiter);
    assert_eq!(escrow.release_milestone(id, Address(666), 0, LEDGER), Err(Error::UnauthorizedRole));
}

// ─── MultiSig ────────────────────────────────────────────────────────────────

#[test]
fn multisig_client_can_release_with_both_approvals() {
    let mut escrow = Escrow::new();
    let (c, f, _) = participants();
    let id = create(&mut escrow, c, f, None, ReleaseAuthorization::MultiSig);
    assert_eq!(escrow.release_milestone(id, c, 0, LEDGER), Ok(true));
}

#[test]
fn multisig_freelancer_can_release_with_both_approvals() {
    let mut escrow = Escrow::new();
    let (c, f, _) = participants();
    let id = create(&mut escrow, c, f, None, ReleaseAuthorization::MultiSig);
    assert_eq!(escrow.release_milestone(id, f, 0, LEDGER), Ok(true));
}

#[test]
fn multisig_arbiter_rejected() {
    let mut escrow = Escrow::new();
    let (c, f, a) = participants();
    let id = create(&mut escrow, c, f, Some(a), ReleaseAuthorization::MultiSig);
    assert_eq!(escrow.release_milestone(id, a, 0, LEDGER), Err(Error::UnauthorizedRole));
}

#[test]
fn multisig_attacker_rejected() {
    let mut escrow = Escrow::new();
    let (c, f, _) = participants();
    let id = create(&mut escrow, c, f, None, ReleaseAuthorization::MultiSig);
    assert_eq!(escrow.release_milestone(id, Address(666), 0, LEDGER), Err(Error::UnauthorizedRole));
}

#[test]
fn multisig_only_one_approval_insufficient() {
    let mut escrow = Escrow::new();
    let (c, f, _) = participants();
    let id = escrow.create_contract(c, f, None, &milestones(), ReleaseAuthorization::MultiSig).unwrap();
    assert_eq!(escrow.deposit_funds(id, c, total()), Ok(true));
    assert_eq!(escrow.approve_milestone_release(id, c, 0, LEDGER), Ok(true));
    assert_eq!(escrow.release_milestone(id, c, 0, LEDGER), Err(Error::InsufficientApprovals));
}

#[test]
fn release_without_approval_fails() {
    let mut escrow = Escrow::new();
    let (c, f, _) = participants();
    let id = escrow.create_contract(c, f, None, &milestones(), ReleaseAuthorization::ClientOnly).unwrap();
    assert_eq!(escrow.deposit_funds(id, c, total()), Ok(true));
    assert_eq!(escrow.release_milestone(id, c, 0, LEDGER), Err(Error::InsufficientApprovals));
}

#[test]
fn unauthorized_caller_without_auth_is_rejected() {
    let mut escrow = Escrow::new();
    let (c, f, _) = participants();
    let id = create(&mut escrow, c, f, None, ReleaseAuthorization::ClientOnly);
    assert_eq!(escrow.release_milestone(id, Address(123), 0, LEDGER), Err(Error::UnauthorizedRole));
}

#[test]
fn fail_closed_on_unauthorized_caller_no_state_change() {
    let mut escrow = Escrow::new();
    let (c, f, _) = participants();
    let id = create(&mut escrow, c, f, None, ReleaseAuthorization::ClientOnly);
    let before = escrow.get_contract(id).unwrap();
    assert_eq!(escrow.release_milestone(id, Address(666), 0, LEDGER), Err(Error::UnauthorizedRole));
    let after = escrow.get_contract(id).unwrap();
    assert_eq!(before.released_amount, after.released_amount);
    assert_eq!(before.status, after.status);
    assert!(escrow.get_milestone_approvals(id, 0, LEDGER).is_some());
}

// ─── approval records ────────────────────────────────────────────────────────

fn funded(escrow: &mut Escrow, arbiter: Option<Address>, mode: ReleaseAuthorization) -> u32 {
    let (c, f, _) = participants();
    let id = escrow.create_contract(c, f, arbiter, &[200_0000000, 400_0000000, 600_0000000], mode).unwrap();
    assert_eq!(escrow.deposit_funds(id, c, 1_200_0000000), Ok(true));
    id
}

#[test]
fn approval_expiry_test_approve_milestone_client_only() {
    let mut escrow = Escrow::new();
    let (c, _, _) = participants();
    let id = funded(&mut escrow, None, ReleaseAuthorization::ClientOnly);
    assert_eq!(escrow.approve_milestone_release(id, c, 0, LEDGER), Ok(true));
    let approvals = escrow.get_milestone_approvals(id, 0, LEDGER);
    assert!(approvals.is_some());
    let approvals = approvals.unwrap();
    assert!(approvals.client_approved);
    assert!(!approvals.freelancer_approved);
    assert!(!approvals.arbiter_approved);
}

#[test]
fn approval_expiry_test_approve_milestone_multisig() {
    let mut escrow = Escrow::new();
    let (c, f, _) = participants();
    let id = funded(&mut escrow, None, ReleaseAuthorization::MultiSig);
    assert_eq!(escrow.approve_milestone_release(id, c, 0, LEDGER), Ok(true));
    assert_eq!(escrow.approve_milestone_release(id, f, 0, LEDGER), Ok(true));
    let approvals = escrow.get_milestone_approvals(id, 0, LEDGER);
    assert!(approvals.is_some());
    let approvals = approvals.unwrap();
    assert!(approvals.client_approved);
    assert!(approvals.freelancer_approved);
}

#[test]
fn test_approve_milestone_arbiter_only() {
    let mut escrow = Escrow::new();
    let (_, _, a) = participants();
    let id = funded(&mut escrow, Some(a), ReleaseAuthorization::ArbiterOnly);
    assert_eq!(escrow.approve_milestone_release(id, a, 0, LEDGER), Ok(true));
    let approvals = escrow.get_milestone_approvals(id, 0, LEDGER).unwrap();
    assert!(!approvals.client_approved);
    assert!(approvals.arbiter_approved);
}

#[test]
fn test_approve_milestone_client_and_arbiter() {
    let mut escrow = Escrow::new();
    let (c, _, a) = participants();
    let id = funded(&mut escrow, Some(a), ReleaseAuthorization::ClientAndArbiter);
    assert_eq!(escrow.approve_milestone_release(id, c, 0, LEDGER), Ok(true));
    let approvals = escrow.get_milestone_approvals(id, 0, LEDGER);
    assert!(approvals.is_some());
    assert!(approvals.unwrap().client_approved);
}

#[test]
fn approval_expiry_test_duplicate_approval_rejected() {
    let mut escrow = Escrow::new();
    let (c, _, _) = participants();
    let id = funded(&mut escrow, None, ReleaseAuthorization::ClientOnly);
    assert_eq!(escrow.approve_milestone_release(id, c, 0, LEDGER), Ok(true));
    assert_eq!(escrow.approve_milestone_release(id, c, 0, LEDGER), Err(Error::AlreadyApproved));
}

#[test]
fn test_unauthorized_approval_rejected() {
    let mut escrow = Escrow::new();
    let (_, f, _) = participants();
    let id = funded(&mut escrow, None, ReleaseAuthorization::ClientOnly);
    assert_eq!(escrow.approve_milestone_release(id, f, 0, LEDGER), Err(Error::UnauthorizedRole));
}

#[test]
fn test_release_requires_approval() {
    let mut escrow = Escrow::new();
    let (c, _, _) = participants();
    let id = funded(&mut escrow, None, ReleaseAuthorization::ClientOnly);
    assert_eq!(escrow.release_milestone(id, c, 0, LEDGER), Err(Error::InsufficientApprovals));
}

#[test]
fn test_release_with_approval_succeeds() {
    let mut escrow = Escrow::new();
    let (c, _, _) = participants();
    let id = funded(&mut escrow, None, ReleaseAuthorization::ClientOnly);
    assert_eq!(escrow.approve_milestone_release(id, c, 0, LEDGER), Ok(true));
    assert_eq!(escrow.release_milestone(id, c, 0, LEDGER), Ok(true));
    assert!(escrow.get_milestones(id).unwrap()[0].released);
    assert!(escrow.get_milestone_approvals(id, 0, LEDGER).is_none());
}

#[test]
fn test_multisig_requires_both_approvals() {
    let mut escrow = Escrow::new();
    let (c, f, _) = participants();
    let id = funded(&mut escrow, None, ReleaseAuthorization::MultiSig);
    assert_eq!(escrow.approve_milestone_release(id, c, 0, LEDGER), Ok(true));
    assert_eq!(escrow.release_milestone(id, c, 0, LEDGER), Err(Error::InsufficientApprovals));
    assert_eq!(escrow.approve_milestone_release(id, f, 0, LEDGER), Ok(true));
    assert_eq!(escrow.release_milestone(id, c, 0, LEDGER), Ok(true));
}

#[test]
fn test_approval_expiry_simulation() {
    let mut escrow = Escrow::new();
    let (c, _, _) = participants();
    let id = funded(&mut escrow, None, ReleaseAuthorization::ClientOnly);
    assert_eq!(escrow.approve_milestone_release(id, c, 0, LEDGER), Ok(true));
    let last_live = LEDGER + PENDING_APPROVAL_TTL_LEDGERS;
    assert!(escrow.get_milestone_approvals(id, 0, LEDGER).is_some());
    assert!(escrow.get_milestone_approvals(id, 0, last_live).is_some());
    assert!(escrow.get_milestone_approvals(id, 0, last_live + 1).is_none());
    assert_eq!(escrow.release_milestone(id, c, 0, last_live + 1), Err(Error::ApprovalExpired));
    // An expired approval counts as absent, so the client may approve afresh.
    assert_eq!(escrow.approve_milestone_release(id, c, 0, last_live + 1), Ok(true));
    assert_eq!(escrow.release_milestone(id, c, 0, last_live + 1), Ok(true));
}

#[test]
fn test_approve_already_released_milestone_fails() {
    let mut escrow = Escrow::new();
    let (c, _, _) = participants();
    let id = funded(&mut escrow, None, ReleaseAuthorization::ClientOnly);
    assert_eq!(escrow.approve_milestone_release(id, c, 0, LEDGER), Ok(true));
    assert_eq!(escrow.release_milestone(id, c, 0, LEDGER), Ok(true));
    assert_eq!(escrow.approve_milestone_release(id, c, 0, LEDGER), Err(Error::MilestoneAlreadyReleased));
}

#[test]
fn test_approve_invalid_milestone_index() {
    let mut escrow = Escrow::new();
    let (c, _, _) = participants();
    let id = funded(&mut escrow, None, ReleaseAuthorization::ClientOnly);
    assert_eq!(escrow.approve_milestone_release(id, c, 99, LEDGER), Err(Error::IndexOutOfBounds));
}

#[test]
fn approval_expiry_test_approve_requires_funded_state() {
    let mut escrow = Escrow::new();
    let (c, f, _) = participants();
    let id = escrow.create_contract(c, f, None, &[200_0000000], ReleaseAuthorization::ClientOnly).unwrap();
    assert_eq!(escrow.approve_milestone_release(id, c, 0, LEDGER), Err(Error::InvalidState));
}

#[test]
fn test_multiple_milestones_independent_approvals() {
    let mut escrow = Escrow::new();
    let (c, _, _) = participants();
    let id = funded(&mut escrow, None, ReleaseAuthorization::ClientOnly);
    assert_eq!(escrow.approve_milestone_release(id, c, 0, LEDGER), Ok(true));
    assert_eq!(escrow.approve_milestone_release(id, c, 1, LEDGER), Ok(true));
    assert!(escrow.get_milestone_approvals(id, 0, LEDGER).is_some());
    assert!(escrow.get_milestone_approvals(id, 1, LEDGER).is_some());
    assert_eq!(escrow.release_milestone(id, c, 0, LEDGER), Ok(true));
    assert!(escrow.get_milestone_approvals(id, 0, LEDGER).is_none());
    assert!(escrow.get_milestone_approvals(id, 1, LEDGER).is_some());
}

// ─── the approval rules on their own ─────────────────────────────────────────

fn contract(mode: ReleaseAuthorization, status: ContractStatus) -> Contract {
    let (c, f, a) = participants();
    Contract {
        client: c,
        freelancer: f,
        arbiter: Some(a),
        status,
        funded_amount: 1000,
        released_amount: 0,
        refunded_amount: 0,
        release_authorization: mode,
    }
}

fn one_milestone() -> Vec<Milestone> {
    vec![Milestone { amount: 1000, released: false, refunded: false }]
}

#[test]
fn approvals_test_approve_milestone_client_only() {
    let (c, _, _) = participants();
    let k = contract(ReleaseAuthorization::ClientOnly, ContractStatus::Funded);
    let approvals = approve_milestone(&k, &one_milestone(), 0, c, None).unwrap();
    assert_eq!(check_approvals(&k, &live(approvals), 0), Ok(true));
}

#[test]
fn approvals_test_approve_milestone_multisig() {
    let (c, f, _) = participants();
    let k = contract(ReleaseAuthorization::MultiSig, ContractStatus::Funded);
    let first = approve_milestone(&k, &one_milestone(), 0, c, None).unwrap();
    assert_eq!(check_approvals(&k, &live(first), 0), Err(Error::InsufficientApprovals));
    let both = approve_milestone(&k, &one_milestone(), 0, f, Some(first)).unwrap();
    assert_eq!(check_approvals(&k, &live(both), 0), Ok(true));
}

#[test]
fn approvals_test_duplicate_approval_rejected() {
    let (c, _, _) = participants();
    let k = contract(ReleaseAuthorization::ClientOnly, ContractStatus::Funded);
    let first = approve_milestone(&k, &one_milestone(), 0, c, None).unwrap();
    assert_eq!(
        approve_milestone(&k, &one_milestone(), 0, c, Some(first)),
        Err(Error::AlreadyApproved)
    );
}

#[test]
fn approve_milestone_checks_state_index_and_release() {
    let (c, _, _) = participants();
    let created = contract(ReleaseAuthorization::ClientOnly, ContractStatus::Created);
    assert_eq!(approve_milestone(&created, &one_milestone(), 0, c, None), Err(Error::InvalidState));
    let k = contract(ReleaseAuthorization::ClientOnly, ContractStatus::Funded);
    assert_eq!(approve_milestone(&k, &one_milestone(), 1, c, None), Err(Error::IndexOutOfBounds));
    let released = vec![Milestone { amount: 1000, released: true, refunded: false }];
    assert_eq!(approve_milestone(&k, &released, 0, c, None), Err(Error::MilestoneAlreadyReleased));
    assert_eq!(approve_milestone(&k, &one_milestone(), 0, Address(77), None), Err(Error::UnauthorizedRole));
}

#[test]
fn check_approvals_follows_each_mode() {
    let none = MilestoneApprovals { client_approved: false, freelancer_approved: false, arbiter_approved: false };
    let client_only = MilestoneApprovals { client_approved: true, ..none };
    let arbiter_only = MilestoneApprovals { arbiter_approved: true, ..none };
    let freelancer_only = MilestoneApprovals { freelancer_approved: true, ..none };
    let k = contract(ReleaseAuthorization::ClientAndArbiter, ContractStatus::Funded);
    assert_eq!(check_approvals(&k, &live(arbiter_only), 0), Ok(true));
    assert_eq!(check_approvals(&k, &live(client_only), 0), Ok(true));
    assert_eq!(check_approvals(&k, &live(freelancer_only), 0), Err(Error::InsufficientApprovals));
    assert_eq!(check_approvals(&k, &None, 0), Err(Error::InsufficientApprovals));
    let k = contract(ReleaseAuthorization::ArbiterOnly, ContractStatus::Funded);
    assert_eq!(check_approvals(&k, &live(client_only), 0), Err(Error::InsufficientApprovals));
    assert_eq!(check_approvals(&k, &live(arbiter_only), 0), Ok(true));
}

#[test]
fn expired_approval_blocks_release_until_reapproved() {
    let mut escrow = Escrow::new();
    let (c, f, _) = participants();
    let id = funded(&mut escrow, None, ReleaseAuthorization::MultiSig);
    assert_eq!(escrow.approve_milestone_release(id, c, 0, 100), Ok(true));
    // The client's approval has lapsed when the freelancer approves, so only
    // the freelancer's flag counts.
    let later = 100 + PENDING_APPROVAL_TTL_LEDGERS + 1;
    assert_eq!(escrow.approve_milestone_release(id, f, 0, later), Ok(true));
    let live = escrow.get_milestone_approvals(id, 0, later).unwrap();
    assert!(!live.client_approved);
    assert!(live.freelancer_approved);
    assert_eq!(escrow.release_milestone(id, f, 0, later), Err(Error::InsufficientApprovals));
}

#[test]
fn check_approvals_reports_expired_records() {
    let k = contract(ReleaseAuthorization::ClientOnly, ContractStatus::Funded);
    let a = MilestoneApprovals { client_approved: true, freelancer_approved: false, arbiter_approved: false };
    let stored = Some(StoredApprovals { approvals: a, live_until_ledger: 500 });
    assert_eq!(check_approvals(&k, &stored, 500), Ok(true));
    assert_eq!(check_approvals(&k, &stored, 501), Err(Error::ApprovalExpired));
    let missing = Some(StoredApprovals { approvals: MilestoneApprovals { client_approved: false, ..a }, live_until_ledger: 500 });
    assert_eq!(check_approvals(&k, &missing, 400), Err(Error::InsufficientApprovals));
    assert_eq!(check_approvals(&k, &missing, 501), Err(Error::ApprovalExpired));
}

#[test]
fn clear_approvals_drops_one_record_and_ignores_unknown_indices() {
    let a = MilestoneApprovals { client_approved: true, freelancer_approved: false, arbiter_approved: false };
    let rec = StoredApprovals { approvals: a, live_until_ledger: 9 };
    let mut approvals = vec![Some(rec), Some(rec)];
    clear_approvals(&mut approvals, 1);
    assert_eq!(approvals, vec![Some(rec), None]);
    clear_approvals(&mut approvals, 7);
    assert_eq!(approvals, vec![Some(rec), None]);
}

#[test]
fn reapproval_extends_expiry_only_when_at_most_a_day_remains() {
    let mut escrow = Escrow::new();
    let (c, f, _) = participants();
    let id = funded(&mut escrow, None, ReleaseAuthorization::MultiSig);
    assert_eq!(escrow.approve_milestone_release(id, c, 0, 0), Ok(true));
    // More than a day of the record is left: the second approval keeps its expiry.
    assert_eq!(escrow.approve_milestone_release(id, f, 0, 100_000), Ok(true));
    assert!(escrow.get_milestone_approvals(id, 0, PENDING_APPROVAL_TTL_LEDGERS).is_some());
    assert!(escrow.get_milestone_approvals(id, 0, PENDING_APPROVAL_TTL_LEDGERS + 1).is_none());
    assert_eq!(escrow.release_milestone(id, c, 0, 130_000), Err(Error::ApprovalExpired));
}

#[test]
fn reapproval_in_the_last_day_renews_the_expiry() {
    let mut escrow = Escrow::new();
    let (c, f, _) = participants();
    let id = funded(&mut escrow, None, ReleaseAuthorization::MultiSig);
    assert_eq!(escrow.approve_milestone_release(id, c, 0, 0), Ok(true));
    let late = PENDING_APPROVAL_TTL_LEDGERS - 100;
    assert_eq!(escrow.approve_milestone_release(id, f, 0, late), Ok(true));
    assert!(escrow.get_milestone_approvals(id, 0, late + PENDING_APPROVAL_TTL_LEDGERS).is_some());
    assert_eq!(escrow.release_milestone(id, c, 0, late + PENDING_APPROVAL_TTL_LEDGERS), Ok(true));
}

#[test]
fn release_of_a_refunded_milestone_checks_approvals_first() {
    let mut escrow = Escrow::new();
    let (c, _, _) = participants();
    let id = funded(&mut escrow, None, ReleaseAuthorization::ClientOnly);
    assert_eq!(escrow.refund_unreleased_milestones(id, &[1]), Ok(400_0000000));
    assert_eq!(escrow.release_milestone(id, c, 1, LEDGER), Err(Error::InsufficientApprovals));
    assert_eq!(escrow.approve_milestone_release(id, c, 1, LEDGER), Ok(true));
    assert_eq!(escrow.release_milestone(id, c, 1, LEDGER), Err(Error::AlreadyRefunded));
}
