//! Proposal lifecycle: the state of a proposal is derived fresh on every
//! query from its stored facts and the current logical time, by a strict
//! priority chain in which the terminal flags always win.

use vstd::prelude::*;

use crate::types::{ProposalCore, ProposalState};

verus! {

/// The lifecycle state of a proposal given its core facts, its tally and
/// the current time `now`:
/// executed wins over canceled, which wins over the timed states; once the
/// voting window has closed, the vote has succeeded only if strictly more
/// votes were cast for than against, so a tie is a defeat.
pub open spec fn state_spec(
    core: ProposalCore,
    votes_for: u32,
    votes_against: u32,
    now: u64,
) -> ProposalState {
    if core.executed {
        ProposalState::Executed
    } else if core.canceled {
        ProposalState::Canceled
    } else if now < core.vote_start {
        ProposalState::Pending
    } else if now < core.vote_end {
        ProposalState::Active
    } else if votes_for > votes_against {
        ProposalState::Succeeded
    } else {
        ProposalState::Defeated
    }
}

/// Evaluates the lifecycle state of a proposal.
pub fn evaluate_state(core: &ProposalCore, votes_for: u32, votes_against: u32, now: u64) -> (r:
    ProposalState)
    ensures
        r == state_spec(*core, votes_for, votes_against, now),
{
    if core.executed {
        ProposalState::Executed
    } else if core.canceled {
        ProposalState::Canceled
    } else if now < core.vote_start {
        ProposalState::Pending
    } else if now < core.vote_end {
        ProposalState::Active
    } else if votes_for > votes_against {
        ProposalState::Succeeded
    } else {
        ProposalState::Defeated
    }
}

/// An executed proposal always reports `Executed`, whatever its tallies,
/// its timestamps, and even if its canceled flag is also set.
pub proof fn lemma_executed_state_is_terminal(
    core: ProposalCore,
    votes_for: u32,
    votes_against: u32,
    now: u64,
)
    requires
        core.executed,
    ensures
        state_spec(core, votes_for, votes_against, now) == ProposalState::Executed,
{
}

} // verus!
