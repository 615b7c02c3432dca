//! The engine's cross-cutting guarantees, stated and proved once over the
//! abstract state: proposal identity is deterministic, and a vote counts at
//! most once per account per proposal.
//!
//! Two further guarantees live beside the components they speak of:
//! historical voting power is stable under ledger growth and a delegator
//! counts for exactly one delegatee (`delegation`), and an executed
//! proposal reports `Executed` unconditionally (`state_machine`).

use vstd::prelude::*;

use crate::delegation::{lemma_snapshot_stability, power_of};
use crate::governor::{cast_vote_error, delegated_view, voted_view, wf_view, GovernorView};
use crate::hashing::proposal_id_of;
use crate::state_machine::state_spec;
use crate::store::{entry_of, has_proposal, lemma_entry_after_update, tallied_entry};
use crate::types::{
    AccountId, DelegationRecord, GovernorError, ProposalId, ProposalState, TransactionV, VoteType,
};

verus! {

/// Determinism of proposal identity: two proposals with equal transactions
/// and equal descriptions always receive the same id. (That differing
/// content yields differing ids is a property of the underlying
/// cryptographic hash and cannot be proved here; the tests check it on a
/// corpus.)
pub proof fn lemma_hash_proposal_deterministic(
    t1: TransactionV,
    d1: Seq<char>,
    t2: TransactionV,
    d2: Seq<char>,
)
    requires
        t1 == t2,
        d1 == d2,
    ensures
        proposal_id_of(t1, d1) == proposal_id_of(t2, d2),
{
}

/// Snapshot stability at the engine: a delegation recorded at a block
/// after a checkpoint changes no account's power at that checkpoint, so a
/// historical power query returns the same value before and after the
/// ledger grows.
pub proof fn lemma_past_votes_stable_under_delegate(
    v: GovernorView,
    caller: AccountId,
    delegatee: AccountId,
    block: u32,
    account: AccountId,
    checkpoint: u32,
)
    requires
        block > checkpoint,
    ensures
        power_of(delegated_view(v, caller, delegatee, block).records, account, checkpoint)
            == power_of(v.records, account, checkpoint),
{
    let rec = DelegationRecord { block, delegator: caller, delegatee };
    lemma_snapshot_stability(v.records, seq![rec], account, checkpoint);
    assert(v.records + seq![rec] =~= v.records.push(rec));
}

/// Idempotent voting, first half: whenever an account that already appears
/// among a proposal's voters attempts to vote — at a time at which the
/// proposal is open and while the account still has voting power, so that
/// no earlier check intervenes — the attempt resolves to
/// `HasAlreadyVoted`; by `cast_vote`'s contract every failed call leaves
/// the engine, and so the tallies, unchanged.
pub proof fn lemma_vote_idempotent(
    v: GovernorView,
    caller: AccountId,
    pid: ProposalId,
    now: u64,
)
    requires
        power_of(v.records, caller, u32::MAX) >= 1,
        has_proposal(v.proposals, pid),
        state_spec(
            entry_of(v.proposals, pid).core,
            entry_of(v.proposals, pid).vote.votes_for,
            entry_of(v.proposals, pid).vote.votes_against,
            now,
        ) == ProposalState::Active,
        entry_of(v.proposals, pid).vote.has_voted.contains(caller),
    ensures
        cast_vote_error(v, caller, pid, now) == Some(GovernorError::HasAlreadyVoted),
{
}

/// Idempotent voting, second half: after one successful `cast_vote` the
/// caller stands among the proposal's voters, so a second vote by the same
/// caller on the same proposal — at any time at which the proposal is
/// still open and while the caller still has power — fails with
/// `HasAlreadyVoted`.
pub proof fn lemma_vote_then_vote_again(
    v: GovernorView,
    caller: AccountId,
    pid: ProposalId,
    choice: VoteType,
    now1: u64,
    now2: u64,
)
    requires
        wf_view(v),
        cast_vote_error(v, caller, pid, now1) is None,
        power_of(voted_view(v, caller, pid, choice).records, caller, u32::MAX) >= 1,
        state_spec(
            entry_of(voted_view(v, caller, pid, choice).proposals, pid).core,
            entry_of(voted_view(v, caller, pid, choice).proposals, pid).vote.votes_for,
            entry_of(voted_view(v, caller, pid, choice).proposals, pid).vote.votes_against,
            now2,
        ) == ProposalState::Active,
    ensures
        cast_vote_error(voted_view(v, caller, pid, choice), caller, pid, now2) == Some(
            GovernorError::HasAlreadyVoted,
        ),
{
    let power = power_of(v.records, caller, u32::MAX) as u32;
    let e2 = tallied_entry(entry_of(v.proposals, pid), caller, choice, power);
    lemma_entry_after_update(v.proposals, pid, e2);
    let v2 = voted_view(v, caller, pid, choice);
    assert(entry_of(v2.proposals, pid) == e2);
    assert(e2.vote.has_voted.contains(caller)) by {
        assert(e2.vote.has_voted.last() == caller);
    }
}

} // verus!
