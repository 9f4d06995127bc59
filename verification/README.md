# escrow

A milestone escrow for freelance work, written in Verus. A client creates a
contract with a freelancer (and optionally an arbiter) over a list of
milestone amounts, funds it, approves and releases milestones one at a
time, or refunds the unsettled ones; once every milestone is settled the
client may rate the freelancer. An administrator can pause the escrow,
declare an emergency and set a protocol fee taken on each release.

## Layout

- `src/types.rs`: participants, contracts, milestones, approvals, statuses,
  storage keys and the error type with its numeric codes.
- `src/amount_validation.rs`: bounds on single amounts, milestone lists and
  totals, and overflow-checked addition and subtraction.
- `src/approvals.rs`: who may approve and release under each release mode,
  approvals that expire after a number of ledgers, and when they suffice.
- `src/dispute.rs`: how an arbiter's resolution splits what a contract still
  holds, and the status that follows.
- `src/ttl.rs`: time-to-live constants and expiry arithmetic.
- `src/model.rs`: the abstract ledger (`EscrowView`), its well-formedness,
  and every operation as an error function plus a successor state.
- `src/escrow.rs`: the executable ledger; each method is proved to return
  exactly the model's error or to move to exactly the model's successor.
- `src/laws.rs`: properties that span operations (accounting bounds, status
  meaning, pause and emergency, single release, approval expiry, reputation
  once per contract).
- `app/`: the Soroban contract around the library: host storage, time to
  live, authorization, token transfers and events.
