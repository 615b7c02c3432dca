//! The notifications the engine emits: structured, immutable records, one
//! per triggering call, kept in the engine's event log in emission order
//! for external observers.

use vstd::prelude::*;

use crate::types::{AccountId, ProposalId, Transaction, TransactionV, VoteType};

verus! {

/// A proposal was created.
#[derive(Debug)]
pub struct ProposalCreated {
    pub proposal_id: ProposalId,
    pub proposer: AccountId,
    pub transaction: Transaction,
    pub description: String,
    pub vote_start: u64,
    pub vote_end: u64,
}

/// A vote was cast on a proposal.
#[derive(Clone, Copy, PartialEq, Eq, Structural, Debug)]
pub struct VoteCast {
    pub voter: AccountId,
    pub proposal_id: ProposalId,
    pub vote: VoteType,
}

/// A delegator assigned its voting power to a new delegatee.
#[derive(Clone, Copy, PartialEq, Eq, Structural, Debug)]
pub struct DelegateChanged {
    pub delegator: AccountId,
    pub from_delegate: AccountId,
    pub to_delegate: AccountId,
}

/// A delegatee's voting power changed; `votes` is its recomputed power.
#[derive(Clone, Copy, PartialEq, Eq, Structural, Debug)]
pub struct DelegateVotesChanged {
    pub delegate: AccountId,
    pub votes: u32,
}

/// The membership-credential collection was bootstrapped.
#[derive(Debug)]
pub struct CollectionCreated {
    pub collection_id: u32,
    pub symbol: String,
}

/// A notification in the engine's event log.
#[derive(Debug)]
pub enum GovernorEvent {
    Proposal(ProposalCreated),
    Vote(VoteCast),
    Delegation(DelegateChanged),
    Votes(DelegateVotesChanged),
    Collection(CollectionCreated),
}

/// The mathematical value of a notification.
pub enum EventV {
    ProposalCreated {
        proposal_id: ProposalId,
        proposer: AccountId,
        transaction: TransactionV,
        description: Seq<char>,
        vote_start: u64,
        vote_end: u64,
    },
    VoteCast { voter: AccountId, proposal_id: ProposalId, vote: VoteType },
    DelegateChanged { delegator: AccountId, from_delegate: AccountId, to_delegate: AccountId },
    DelegateVotesChanged { delegate: AccountId, votes: u32 },
    CollectionCreated { collection_id: u32, symbol: Seq<char> },
}

impl View for GovernorEvent {
    type V = EventV;

    open spec fn view(&self) -> EventV {
        match self {
            GovernorEvent::Proposal(e) => EventV::ProposalCreated {
                proposal_id: e.proposal_id,
                proposer: e.proposer,
                transaction: e.transaction@,
                description: e.description@,
                vote_start: e.vote_start,
                vote_end: e.vote_end,
            },
            GovernorEvent::Vote(e) => EventV::VoteCast {
                voter: e.voter,
                proposal_id: e.proposal_id,
                vote: e.vote,
            },
            GovernorEvent::Delegation(e) => EventV::DelegateChanged {
                delegator: e.delegator,
                from_delegate: e.from_delegate,
                to_delegate: e.to_delegate,
            },
            GovernorEvent::Votes(e) => EventV::DelegateVotesChanged {
                delegate: e.delegate,
                votes: e.votes,
            },
            GovernorEvent::Collection(e) => EventV::CollectionCreated {
                collection_id: e.collection_id,
                symbol: e.symbol@,
            },
        }
    }
}

/// The mathematical value of an event log.
pub open spec fn events_view(es: Seq<GovernorEvent>) -> Seq<EventV> {
    es.map_values(|e: GovernorEvent| e@)
}

/// Appending to the log appends to its mathematical value.
pub proof fn lemma_events_view_push(es: Seq<GovernorEvent>, e: GovernorEvent)
    ensures
        events_view(es.push(e)) == events_view(es).push(e@),
{
    assert(events_view(es.push(e)) =~= events_view(es).push(e@));
}

} // verus!
