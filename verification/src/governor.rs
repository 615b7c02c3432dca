//! The governance engine: orchestrates propose, delegate, cast_vote and
//! execute over the delegation ledger, the proposal store and the external
//! membership ledger. Every mutation is atomic: it either commits entirely
//! or leaves the engine unchanged and reports why.

use vstd::prelude::*;

use crate::delegation::{
    active_delegators, current_delegate_spec, lemma_active_some_implies_match,
    lemma_power_bounded, matches_at, power_of, DelegationLedger,
};
use crate::delegation::contains_account;
use crate::events::{
    events_view, lemma_events_view_push, CollectionCreated, DelegateChanged, DelegateVotesChanged,
    EventV, GovernorEvent, ProposalCreated, VoteCast,
};
use crate::gate::MembershipGate;
use crate::hashing::{compute_proposal_id, proposal_id_of};
use crate::state_machine::{evaluate_state, state_spec};
use crate::store::{
    entry_of, has_proposal, index_of_pid, tallied_entry, tally_fits, unique_ids, ProposalEntryV,
    ProposalStore,
};
use crate::types::{
    AccountId, DelegationRecord, GovernorError, OwnerRecord, ProposalCore, ProposalId,
    ProposalState, ProposalVote, ProposalVoteV, RCError, RCErrorCode, Transaction, TransactionV,
    VoteType,
};

verus! {

/// The full abstract state of the engine.
pub struct GovernorView {
    pub name: Option<Seq<char>>,
    pub voting_delay: u64,
    pub voting_period: u64,
    pub execution_delay: u64,
    pub price: u128,
    pub collection_id: Option<u32>,
    pub records: Seq<DelegationRecord>,
    pub proposals: Seq<ProposalEntryV>,
    pub owners: Seq<OwnerRecord>,
    pub events: Seq<EventV>,
}

/// Whether `a` holds a membership credential.
pub open spec fn is_owner(owners: Seq<OwnerRecord>, a: AccountId) -> bool {
    exists|i: int| 0 <= i < owners.len() && owners[i].account == a
}

/// The index of `a`'s membership record (meaningful when present).
pub open spec fn owner_index(owners: Seq<OwnerRecord>, a: AccountId) -> int {
    choose|i: int| 0 <= i < owners.len() && owners[i].account == a
}

/// The membership record of `a` (meaningful when present).
pub open spec fn owner_of(owners: Seq<OwnerRecord>, a: AccountId) -> OwnerRecord {
    owners[owner_index(owners, a)]
}

/// Whether every member appears exactly once.
pub open spec fn unique_owners(owners: Seq<OwnerRecord>) -> bool {
    forall|i: int, j: int| 0 <= i < j < owners.len() ==> owners[i].account != owners[j].account
}

/// With unique members, position `i` holds exactly the record looked up by
/// its account.
pub proof fn lemma_owner_lookup(owners: Seq<OwnerRecord>, i: int)
    requires
        unique_owners(owners),
        0 <= i < owners.len(),
    ensures
        is_owner(owners, owners[i].account),
        owner_index(owners, owners[i].account) == i,
        owner_of(owners, owners[i].account) == owners[i],
{
    let a = owners[i].account;
    assert(is_owner(owners, a));
    let j = owner_index(owners, a);
    assert(0 <= j < owners.len() && owners[j].account == a);
    if j < i {
        assert(owners[j].account != owners[i].account);
        assert(false);
    } else if j > i {
        assert(owners[i].account != owners[j].account);
        assert(false);
    }
}

/// The engine's well-formedness invariant: the ledger is bounded with
/// non-decreasing blocks, proposal ids and members are unique, every
/// delegator holds a credential, a member exists only after the collection
/// was bootstrapped, and no voter is recorded twice.
pub open spec fn wf_view(v: GovernorView) -> bool {
    &&& v.records.len() <= u32::MAX
    &&& forall|i: int, j: int|
        0 <= i <= j < v.records.len() ==> v.records[i].block <= v.records[j].block
    &&& unique_ids(v.proposals)
    &&& unique_owners(v.owners)
    &&& forall|i: int|
        0 <= i < v.records.len() ==> is_owner(v.owners, #[trigger] v.records[i].delegator)
    &&& (v.owners.len() > 0 ==> v.collection_id is Some)
    &&& forall|i: int|
        0 <= i < v.proposals.len() ==> (#[trigger] v.proposals[i].vote.has_voted).no_duplicates()
}

/// The precondition failure of `propose`, if any, in the order checked.
pub open spec fn propose_error(
    v: GovernorView,
    caller: AccountId,
    t: TransactionV,
    description: Seq<char>,
) -> Option<GovernorError> {
    if !is_owner(v.owners, caller) {
        Some(GovernorError::NotOwner)
    } else if has_proposal(v.proposals, proposal_id_of(t, description)) {
        Some(GovernorError::ProposalAlreadyExists)
    } else {
        None
    }
}

/// The engine after a successful `propose` at time `now`: a fresh proposal
/// whose voting window opens `voting_delay` after `now` and stays open for
/// `voting_period`, a zero tally, and a creation notification.
pub open spec fn proposed_view(
    v: GovernorView,
    caller: AccountId,
    t: TransactionV,
    description: Seq<char>,
    now: u64,
) -> GovernorView {
    let id = proposal_id_of(t, description);
    let vote_start = (now + v.voting_delay) as u64;
    let vote_end = (now + v.voting_delay + v.voting_period) as u64;
    let core = ProposalCore { vote_start, vote_end, executed: false, canceled: false };
    let vote = ProposalVoteV {
        votes_against: 0,
        votes_for: 0,
        votes_abstain: 0,
        has_voted: Seq::<AccountId>::empty(),
    };
    GovernorView {
        proposals: v.proposals.push(ProposalEntryV { id, core, vote }),
        events: v.events.push(
            EventV::ProposalCreated {
                proposal_id: id,
                proposer: caller,
                transaction: t,
                description,
                vote_start,
                vote_end,
            },
        ),
        ..v
    }
}

/// The engine after a successful `delegate` of `caller` to `delegatee` at
/// `block`: one appended ledger record, a delegation-changed notification,
/// and the recomputed powers of the old and the new delegatee.
pub open spec fn delegated_view(
    v: GovernorView,
    caller: AccountId,
    delegatee: AccountId,
    block: u32,
) -> GovernorView {
    let old_delegate = current_delegate_spec(v.records, caller);
    let records = v.records.push(DelegationRecord { block, delegator: caller, delegatee });
    GovernorView {
        records,
        events: v.events.push(
            EventV::DelegateChanged { delegator: caller, from_delegate: old_delegate, to_delegate: delegatee },
        ).push(
            EventV::DelegateVotesChanged {
                delegate: old_delegate,
                votes: power_of(records, old_delegate, u32::MAX) as u32,
            },
        ).push(
            EventV::DelegateVotesChanged {
                delegate: delegatee,
                votes: power_of(records, delegatee, u32::MAX) as u32,
            },
        ),
        ..v
    }
}

/// The precondition failure of `execute`, if any, in the order checked.
pub open spec fn execute_error(v: GovernorView, pid: ProposalId, now: u64) -> Option<
    GovernorError,
> {
    if !has_proposal(v.proposals, pid) {
        Some(GovernorError::ProposalDoesNotExist)
    } else if state_spec(
        entry_of(v.proposals, pid).core,
        entry_of(v.proposals, pid).vote.votes_for,
        entry_of(v.proposals, pid).vote.votes_against,
        now,
    ) != ProposalState::Succeeded {
        Some(GovernorError::VoteHasNotSucceeded)
    } else {
        None
    }
}

/// The engine after a successful `execute`: the proposal's executed flag is
/// set, once and forever.
pub open spec fn executed_view(v: GovernorView, pid: ProposalId) -> GovernorView {
    GovernorView {
        proposals: v.proposals.update(
            index_of_pid(v.proposals, pid),
            crate::store::executed_entry(entry_of(v.proposals, pid)),
        ),
        ..v
    }
}

/// The precondition failure of `cast_vote`, if any, in the order checked.
pub open spec fn cast_vote_error(
    v: GovernorView,
    caller: AccountId,
    pid: ProposalId,
    now: u64,
) -> Option<GovernorError> {
    if power_of(v.records, caller, u32::MAX) < 1 {
        Some(GovernorError::InsufficientVotingPower)
    } else if !has_proposal(v.proposals, pid) {
        Some(GovernorError::ProposalDoesNotExist)
    } else if state_spec(
        entry_of(v.proposals, pid).core,
        entry_of(v.proposals, pid).vote.votes_for,
        entry_of(v.proposals, pid).vote.votes_against,
        now,
    ) != ProposalState::Active {
        Some(GovernorError::NotOpenForVoting)
    } else if entry_of(v.proposals, pid).vote.has_voted.contains(caller) {
        Some(GovernorError::HasAlreadyVoted)
    } else {
        None
    }
}

/// The membership records after each account in `ds` evolves one
/// credential level.
pub open spec fn evolved_owners(owners: Seq<OwnerRecord>, ds: Set<AccountId>) -> Seq<
    OwnerRecord,
> {
    Seq::new(
        owners.len(),
        |i: int|
            if ds.contains(owners[i].account) {
                OwnerRecord {
                    account: owners[i].account,
                    nft: owners[i].nft,
                    lvl: (owners[i].lvl + 1) as u32,
                }
            } else {
                owners[i]
            },
    )
}

/// The engine after a successful `cast_vote`: the caller's full power in
/// the chosen bucket, the caller recorded as having voted, each of the
/// caller's active delegators evolved one credential level, and a vote
/// notification.
pub open spec fn voted_view(
    v: GovernorView,
    caller: AccountId,
    pid: ProposalId,
    choice: VoteType,
) -> GovernorView {
    let power = power_of(v.records, caller, u32::MAX) as u32;
    GovernorView {
        proposals: v.proposals.update(
            index_of_pid(v.proposals, pid),
            tallied_entry(entry_of(v.proposals, pid), caller, choice, power),
        ),
        owners: evolved_owners(v.owners, active_delegators(v.records, caller, u32::MAX)),
        events: v.events.push(EventV::VoteCast { voter: caller, proposal_id: pid, vote: choice }),
        ..v
    }
}

/// The precondition failure of `become_member`, if any, in the order
/// checked.
pub open spec fn member_error(v: GovernorView, caller: AccountId, paid: u128) -> Option<
    GovernorError,
> {
    if paid < v.price {
        Some(GovernorError::InsufficientAmount)
    } else if is_owner(v.owners, caller) {
        Some(GovernorError::AlreadyOwner)
    } else {
        None
    }
}

/// The engine after a successful `become_member`: the caller holds
/// credential `nft`, minted at level 1 and then evolved once, so at
/// level 2.
pub open spec fn member_view(v: GovernorView, caller: AccountId, nft: u32) -> GovernorView {
    GovernorView { owners: v.owners.push(OwnerRecord { account: caller, nft, lvl: 2 }), ..v }
}

/// The engine after a successful `create_collection`: the collection id is
/// recorded and the bootstrap notification emitted.
pub open spec fn collection_view(v: GovernorView, n: u32) -> GovernorView {
    GovernorView {
        collection_id: Some(n),
        events: v.events.push(EventV::CollectionCreated { collection_id: n, symbol: "ROO"@ }),
        ..v
    }
}

/// The credential artwork attached at each evolution step: the resource
/// metadata for a credential evolving from level `lvl`.
pub open spec fn metadata_for_level_spec(lvl: u32) -> Seq<char> {
    if lvl == 1 {
        "ipfs://ipfs/QmeeCx81m6RVjmzbHjdeHABa7ksVPymwvXRWSuXSnvpoYG"@
    } else if lvl == 2 {
        "ipfs://ipfs/QmSvdCbp8VCPcptoQfZUZ725fd3gyuc8bao1qpykba9zEm"@
    } else if lvl == 3 {
        "ipfs://ipfs/QmXCHpDw6cPGUzksURJ4rXQsxoDKTYvjYKUzcffWmQyhBh"@
    } else {
        "ipfs://ipfs/QmddZKVwg2jg1aqmFnqLAmpUAr8zM8asy8x6tSLuLdY1Sd"@
    }
}

/// The resource metadata for a credential evolving from level `lvl`.
pub fn metadata_for_level(lvl: u32) -> (r: &'static str)
    ensures
        r@ == metadata_for_level_spec(lvl),
{
    if lvl == 1 {
        "ipfs://ipfs/QmeeCx81m6RVjmzbHjdeHABa7ksVPymwvXRWSuXSnvpoYG"
    } else if lvl == 2 {
        "ipfs://ipfs/QmSvdCbp8VCPcptoQfZUZ725fd3gyuc8bao1qpykba9zEm"
    } else if lvl == 3 {
        "ipfs://ipfs/QmXCHpDw6cPGUzksURJ4rXQsxoDKTYvjYKUzcffWmQyhBh"
    } else {
        "ipfs://ipfs/QmddZKVwg2jg1aqmFnqLAmpUAr8zM8asy8x6tSLuLdY1Sd"
    }
}

/// Rebuilds the membership records with each account in `ds` evolved one
/// credential level.
fn evolve_levels(owners: &Vec<OwnerRecord>, ds: &Vec<AccountId>) -> (r: Vec<OwnerRecord>)
    requires
        forall|i: int|
            (0 <= i < owners@.len() && ds@.contains(#[trigger] owners@[i].account))
                ==> owners@[i].lvl < u32::MAX,
    ensures
        r@ == evolved_owners(owners@, ds@.to_set()),
{
    let mut r: Vec<OwnerRecord> = Vec::new();
    let mut i: usize = 0;
    while i < owners.len()
        invariant
            i <= owners@.len(),
            r@.len() == i,
            forall|k: int|
                (0 <= k < owners@.len() && ds@.contains(#[trigger] owners@[k].account))
                    ==> owners@[k].lvl < u32::MAX,
            forall|k: int| 0 <= k < i ==> r@[k] == evolved_owners(owners@, ds@.to_set())[k],
        decreases owners@.len() - i,
    {
        let o = owners[i];
        if contains_account(ds, o.account) {
            proof {
                assert(ds@.to_set().contains(o.account));
            }
            r.push(OwnerRecord { account: o.account, nft: o.nft, lvl: o.lvl + 1 });
        } else {
            proof {
                assert(!ds@.to_set().contains(o.account));
            }
            r.push(o);
        }
        i = i + 1;
    }
    proof {
        assert(r@ =~= evolved_owners(owners@, ds@.to_set()));
    }
    r
}

/// The governance engine's state: configuration, the delegation ledger,
/// the proposal store, the membership records and the event log.
pub struct Governor {
    name: Option<String>,
    voting_delay: u64,
    voting_period: u64,
    execution_delay: u64,
    price: u128,
    collection_id: Option<u32>,
    ledger: DelegationLedger,
    store: ProposalStore,
    owners: Vec<OwnerRecord>,
    events: Vec<GovernorEvent>,
}

impl View for Governor {
    type V = GovernorView;

    closed spec fn view(&self) -> GovernorView {
        GovernorView {
            name: match self.name {
                Option::Some(ref s) => Option::Some(s@),
                Option::None => Option::None,
            },
            voting_delay: self.voting_delay,
            voting_period: self.voting_period,
            execution_delay: self.execution_delay,
            price: self.price,
            collection_id: self.collection_id,
            records: self.ledger@,
            proposals: self.store@,
            owners: self.owners@,
            events: events_view(self.events@),
        }
    }
}

/// Looks up the membership record of `a`.
fn find_owner(owners: &Vec<OwnerRecord>, a: AccountId) -> (r: Option<usize>)
    requires
        unique_owners(owners@),
    ensures
        match r {
            Some(i) => 0 <= i < owners@.len() && owners@[i as int].account == a && is_owner(
                owners@,
                a,
            ) && owner_index(owners@, a) == i as int,
            None => !is_owner(owners@, a),
        },
{
    let mut i: usize = 0;
    while i < owners.len()
        invariant
            unique_owners(owners@),
            i <= owners@.len(),
            forall|k: int| 0 <= k < i ==> owners@[k].account != a,
        decreases owners@.len() - i,
    {
        if owners[i].account == a {
            proof {
                lemma_owner_lookup(owners@, i as int);
            }
            return Some(i);
        }
        i = i + 1;
    }
    None
}

impl Governor {
    /// The engine's well-formedness invariant.
    pub open spec fn wf(self) -> bool {
        wf_view(self@)
    }

    /// A fresh engine: the given configuration, and no proposals, no
    /// delegations, no members, no collection and no events yet.
    pub fn new(
        name: Option<String>,
        voting_delay: u64,
        voting_period: u64,
        execution_delay: u64,
        nft_price: u128,
    ) -> (r: Governor)
        ensures
            r.wf(),
            r@.name == match name {
                Option::Some(s) => Option::Some(s@),
                Option::None => Option::None::<Seq<char>>,
            },
            r@.voting_delay == voting_delay,
            r@.voting_period == voting_period,
            r@.execution_delay == execution_delay,
            r@.price == nft_price,
            r@.collection_id is None,
            r@.records == Seq::<DelegationRecord>::empty(),
            r@.proposals == Seq::<ProposalEntryV>::empty(),
            r@.owners == Seq::<OwnerRecord>::empty(),
            r@.events == Seq::<EventV>::empty(),
    {
        let r = Governor {
            name,
            voting_delay,
            voting_period,
            execution_delay,
            price: nft_price,
            collection_id: None,
            ledger: DelegationLedger::new(),
            store: ProposalStore::new(),
            owners: Vec::new(),
            events: Vec::new(),
        };
        proof {
            assert(r@.events =~= Seq::<EventV>::empty());
        }
        r
    }

    /// The engine's configured name.
    pub fn name(&self) -> (r: Option<String>)
        ensures
            match r {
                Some(s) => self@.name == Some(s@),
                None => self@.name is None,
            },
    {
        match &self.name {
            Some(s) => Some(s.as_str().to_owned()),
            None => None,
        }
    }

    /// The configured delay between proposing and the start of voting.
    pub fn voting_delay(&self) -> (r: u64)
        ensures
            r == self@.voting_delay,
    {
        self.voting_delay
    }

    /// The configured length of the voting window.
    pub fn voting_period(&self) -> (r: u64)
        ensures
            r == self@.voting_period,
    {
        self.voting_period
    }

    /// The configured delay the execution collaborator is asked to hold an
    /// accepted proposal before carrying it out.
    pub fn execution_delay(&self) -> (r: u64)
        ensures
            r == self@.execution_delay,
    {
        self.execution_delay
    }

    /// The configured price of a membership credential.
    pub fn get_nft_price(&self) -> (r: u128)
        ensures
            r == self@.price,
    {
        self.price
    }

    /// The notifications emitted so far, in emission order.
    pub fn events(&self) -> (r: &Vec<GovernorEvent>)
        ensures
            events_view(r@) == self@.events,
    {
        &self.events
    }

    /// The id of the proposal with the given transaction and description:
    /// a pure function of the two, so identical content always yields the
    /// same id.
    pub fn hash_proposal(&self, transaction: &Transaction, description: &String) -> (r: ProposalId)
        requires
            transaction.input@.len() <= u32::MAX,
        ensures
            r == proposal_id_of(transaction@, description@),
    {
        compute_proposal_id(transaction, description.as_str())
    }

    /// The voting power of `account` now: the number of its distinct
    /// active delegators.
    pub fn get_votes(&self, account: AccountId) -> (r: u32)
        requires
            self.wf(),
        ensures
            r as nat == power_of(self@.records, account, u32::MAX),
    {
        self.ledger.votes_at(account, u32::MAX)
    }

    /// The voting power of `account` as of `block`: delegations recorded
    /// after `block` are invisible to the query.
    pub fn get_past_votes(&self, account: AccountId, block: u32) -> (r: u32)
        requires
            self.wf(),
        ensures
            r as nat == power_of(self@.records, account, block),
    {
        self.ledger.votes_at(account, block)
    }

    /// Whether `account` has already voted on the given proposal; false
    /// also when the proposal does not exist.
    pub fn has_voted(&self, proposal_id: ProposalId, account: AccountId) -> (r: bool)
        requires
            self.wf(),
        ensures
            r == (has_proposal(self@.proposals, proposal_id) && entry_of(
                self@.proposals,
                proposal_id,
            ).vote.has_voted.contains(account)),
    {
        match self.store.get_vote(proposal_id) {
            Ok(vote) => contains_account(&vote.has_voted, account),
            Err(_) => false,
        }
    }

    /// The end of the voting window of an existing proposal.
    pub fn proposal_deadline(&self, proposal_id: ProposalId) -> (r: u64)
        requires
            self.wf(),
            has_proposal(self@.proposals, proposal_id),
        ensures
            r == entry_of(self@.proposals, proposal_id).core.vote_end,
    {
        match self.store.get_core(proposal_id) {
            Ok(core) => core.vote_end,
            Err(_) => 0,
        }
    }

    /// The start of the voting window of an existing proposal.
    pub fn proposal_snapshot(&self, proposal_id: ProposalId) -> (r: u64)
        requires
            self.wf(),
            has_proposal(self@.proposals, proposal_id),
        ensures
            r == entry_of(self@.proposals, proposal_id).core.vote_start,
    {
        match self.store.get_core(proposal_id) {
            Ok(core) => core.vote_start,
            Err(_) => 0,
        }
    }

    /// The tally of an existing proposal, as (against, for, abstain).
    pub fn proposal_votes(&self, proposal_id: ProposalId) -> (r: (u32, u32, u32))
        requires
            self.wf(),
            has_proposal(self@.proposals, proposal_id),
        ensures
            r.0 == entry_of(self@.proposals, proposal_id).vote.votes_against,
            r.1 == entry_of(self@.proposals, proposal_id).vote.votes_for,
            r.2 == entry_of(self@.proposals, proposal_id).vote.votes_abstain,
    {
        match self.store.get_vote(proposal_id) {
            Ok(vote) => (vote.votes_against, vote.votes_for, vote.votes_abstain),
            Err(_) => (0, 0, 0),
        }
    }

    /// The lifecycle state of an existing proposal at time `now`, derived
    /// fresh from its stored facts.
    pub fn state(&self, proposal_id: ProposalId, now: u64) -> (r: ProposalState)
        requires
            self.wf(),
            has_proposal(self@.proposals, proposal_id),
        ensures
            r == state_spec(
                entry_of(self@.proposals, proposal_id).core,
                entry_of(self@.proposals, proposal_id).vote.votes_for,
                entry_of(self@.proposals, proposal_id).vote.votes_against,
                now,
            ),
    {
        let core = match self.store.get_core(proposal_id) {
            Ok(c) => c,
            Err(_) => ProposalCore { vote_start: 0, vote_end: 0, executed: false, canceled: false },
        };
        let (votes_for, votes_against) = match self.store.get_vote(proposal_id) {
            Ok(v) => (v.votes_for, v.votes_against),
            Err(_) => (0, 0),
        };
        evaluate_state(&core, votes_for, votes_against, now)
    }

    /// The membership credential of `account`: the collection and the
    /// credential id, or `NotOwner` if the account holds none.
    pub fn get_nft(&self, account: AccountId) -> (r: Result<(u32, u32), GovernorError>)
        requires
            self.wf(),
        ensures
            match r {
                Ok((cid, nft)) => is_owner(self@.owners, account) && self@.collection_id == Some(
                    cid,
                ) && owner_of(self@.owners, account).nft == nft,
                Err(e) => e == GovernorError::NotOwner && !is_owner(self@.owners, account),
            },
    {
        let i = match find_owner(&self.owners, account) {
            Some(i) => i,
            None => {
                return Err(GovernorError::NotOwner);
            },
        };
        let cid: u32 = match self.collection_id {
            Some(c) => c,
            None => 0,
        };
        proof {
            assert(self@.owners.len() > 0);
            assert(self@.collection_id is Some);
        }
        Ok((cid, self.owners[i].nft))
    }

    /// Every member with its credential id and its current voting power.
    pub fn list_owners(&self) -> (r: Vec<(AccountId, u32, u32)>)
        requires
            self.wf(),
        ensures
            r@.len() == self@.owners.len(),
            forall|k: int|
                0 <= k < r@.len() ==> #[trigger] r@[k] == (
                    self@.owners[k].account,
                    self@.owners[k].nft,
                    power_of(self@.records, self@.owners[k].account, u32::MAX) as u32,
                ),
    {
        let mut r: Vec<(AccountId, u32, u32)> = Vec::new();
        let mut i: usize = 0;
        while i < self.owners.len()
            invariant
                self.wf(),
                i <= self@.owners.len(),
                self.owners@ == self@.owners,
                self.ledger@ == self@.records,
                r@.len() == i,
                forall|k: int|
                    0 <= k < i ==> #[trigger] r@[k] == (
                        self@.owners[k].account,
                        self@.owners[k].nft,
                        power_of(self@.records, self@.owners[k].account, u32::MAX) as u32,
                    ),
            decreases self@.owners.len() - i,
        {
            let o = self.owners[i];
            let votes = self.ledger.votes_at(o.account, u32::MAX);
            proof {
                lemma_power_bounded(self@.records, o.account, u32::MAX);
            }
            r.push((o.account, o.nft, votes));
            i = i + 1;
        }
        r
    }

    /// Every proposal with its tally, in creation order.
    pub fn list_proposals(&self) -> (r: Vec<(ProposalId, ProposalVote)>)
        requires
            self.wf(),
        ensures
            r@.len() == self@.proposals.len(),
            forall|k: int|
                0 <= k < r@.len() ==> (#[trigger] r@[k]).0 == self@.proposals[k].id && r@[k].1@
                    == self@.proposals[k].vote,
    {
        let mut r: Vec<(ProposalId, ProposalVote)> = Vec::new();
        let mut i: usize = 0;
        while i < self.store.count()
            invariant
                self.wf(),
                i <= self@.proposals.len(),
                self.store@ == self@.proposals,
                r@.len() == i,
                forall|k: int|
                    0 <= k < i ==> (#[trigger] r@[k]).0 == self@.proposals[k].id && r@[k].1@
                        == self@.proposals[k].vote,
            decreases self@.proposals.len() - i,
        {
            let (id, vote) = self.store.entry_at(i);
            let ghost old_r = r@;
            r.push((id, vote));
            proof {
                assert forall|k: int|
                    0 <= k < i + 1 implies (#[trigger] r@[k]).0 == self@.proposals[k].id && r@[
                    k].1@ == self@.proposals[k].vote by {
                    if k < i as int {
                        assert(r@[k] == old_r[k]);
                        assert(old_r[k].0 == self@.proposals[k].id && (old_r[k].1)@
                            == self@.proposals[k].vote);
                    } else {
                        assert(r@[k] == (id, vote));
                    }
                }
            }
            i = i + 1;
        }
        r
    }
}

impl Governor {
    /// Submits a proposal: the caller must hold a membership credential and
    /// the same content must not have been proposed before. On success the
    /// proposal is stored with a zero tally, its voting window derived from
    /// `now`, and a creation notification is emitted; on failure nothing
    /// changes.
    pub fn propose(
        &mut self,
        caller: AccountId,
        transaction: Transaction,
        description: String,
        now: u64,
    ) -> (r: Result<ProposalId, GovernorError>)
        requires
            old(self).wf(),
            transaction.input@.len() <= u32::MAX,
            now + old(self)@.voting_delay + old(self)@.voting_period <= u64::MAX,
        ensures
            final(self).wf(),
            match r {
                Ok(id) => {
                    &&& propose_error(old(self)@, caller, transaction@, description@) is None
                    &&& id == proposal_id_of(transaction@, description@)
                    &&& final(self)@ == proposed_view(
                        old(self)@,
                        caller,
                        transaction@,
                        description@,
                        now,
                    )
                },
                Err(e) => propose_error(old(self)@, caller, transaction@, description@) == Some(e)
                    && final(self)@ == old(self)@,
            },
    {
        if find_owner(&self.owners, caller).is_none() {
            return Err(GovernorError::NotOwner);
        }
        let id = compute_proposal_id(&transaction, description.as_str());
        let vote_start = now + self.voting_delay;
        let vote_end = now + self.voting_delay + self.voting_period;
        let core = ProposalCore { vote_start, vote_end, executed: false, canceled: false };
        let vote = ProposalVote {
            votes_against: 0,
            votes_for: 0,
            votes_abstain: 0,
            has_voted: Vec::new(),
        };
        match self.store.insert(id, core, vote) {
            Ok(()) => {},
            Err(e) => {
                return Err(e);
            },
        }
        let ghost pre_events = self.events@;
        self.events.push(
            GovernorEvent::Proposal(
                ProposalCreated {
                    proposal_id: id,
                    proposer: caller,
                    transaction,
                    description,
                    vote_start,
                    vote_end,
                },
            ),
        );
        proof {
            lemma_events_view_push(pre_events, self.events@.last());
            assert(self.events@ =~= pre_events.push(self.events@.last()));
            assert(self@.events =~= proposed_view(
                old(self)@,
                caller,
                transaction@,
                description@,
                now,
            ).events);
            assert(self@ == proposed_view(old(self)@, caller, transaction@, description@, now));
        }
        Ok(id)
    }

    /// Delegates the caller's voting power to `delegatee` at `block`. The
    /// caller must hold a membership credential; the ledger only grows, and
    /// `block` may not precede the last recorded block. On success the
    /// delegation is appended and three notifications are emitted: the
    /// change itself, then the recomputed powers of the previous and the
    /// new delegatee.
    pub fn delegate(&mut self, caller: AccountId, delegatee: AccountId, block: u32) -> (r: Result<
        (),
        GovernorError,
    >)
        requires
            old(self).wf(),
            old(self)@.records.len() < u32::MAX,
            old(self)@.records.len() > 0 ==> old(self)@.records.last().block <= block,
        ensures
            final(self).wf(),
            match r {
                Ok(()) => is_owner(old(self)@.owners, caller) && final(self)@ == delegated_view(
                    old(self)@,
                    caller,
                    delegatee,
                    block,
                ),
                Err(e) => e == GovernorError::NotOwner && !is_owner(old(self)@.owners, caller)
                    && final(self)@ == old(self)@,
            },
    {
        if find_owner(&self.owners, caller).is_none() {
            return Err(GovernorError::NotOwner);
        }
        let old_delegate = self.ledger.current_delegate(caller);
        self.ledger.record_delegation(caller, delegatee, block);
        let votes_old = self.ledger.votes_at(old_delegate, u32::MAX);
        let votes_new = self.ledger.votes_at(delegatee, u32::MAX);
        proof {
            lemma_power_bounded(self.ledger@, old_delegate, u32::MAX);
            lemma_power_bounded(self.ledger@, delegatee, u32::MAX);
        }
        let ghost e0 = self.events@;
        self.events.push(
            GovernorEvent::Delegation(
                DelegateChanged { delegator: caller, from_delegate: old_delegate, to_delegate: delegatee },
            ),
        );
        proof {
            lemma_events_view_push(e0, self.events@.last());
            assert(self.events@ =~= e0.push(self.events@.last()));
        }
        let ghost e1 = self.events@;
        self.events.push(
            GovernorEvent::Votes(DelegateVotesChanged { delegate: old_delegate, votes: votes_old }),
        );
        proof {
            lemma_events_view_push(e1, self.events@.last());
            assert(self.events@ =~= e1.push(self.events@.last()));
        }
        let ghost e2 = self.events@;
        self.events.push(
            GovernorEvent::Votes(DelegateVotesChanged { delegate: delegatee, votes: votes_new }),
        );
        proof {
            lemma_events_view_push(e2, self.events@.last());
            assert(self.events@ =~= e2.push(self.events@.last()));
            assert(self@.events =~= delegated_view(old(self)@, caller, delegatee, block).events);
            assert forall|i: int| 0 <= i < self@.records.len() implies is_owner(
                self@.owners,
                #[trigger] self@.records[i].delegator,
            ) by {
                if i < old(self)@.records.len() {
                    assert(is_owner(old(self)@.owners, old(self)@.records[i].delegator));
                }
            }
            assert(self@ == delegated_view(old(self)@, caller, delegatee, block));
        }
        Ok(())
    }

    /// Executes a succeeded proposal: the proposal must exist and its state
    /// at `now` must be `Succeeded`. On success its executed flag is set,
    /// terminally; on failure nothing changes.
    pub fn execute(&mut self, proposal_id: ProposalId, now: u64) -> (r: Result<(), GovernorError>)
        requires
            old(self).wf(),
        ensures
            final(self).wf(),
            match r {
                Ok(()) => execute_error(old(self)@, proposal_id, now) is None && final(self)@
                    == executed_view(old(self)@, proposal_id),
                Err(e) => execute_error(old(self)@, proposal_id, now) == Some(e) && final(self)@
                    == old(self)@,
            },
    {
        let idx = match self.store.find(proposal_id) {
            Some(i) => i,
            None => {
                return Err(GovernorError::ProposalDoesNotExist);
            },
        };
        let core = self.store.core_at(idx);
        let (_, vote) = self.store.entry_at(idx);
        let st = evaluate_state(&core, vote.votes_for, vote.votes_against, now);
        if st != ProposalState::Succeeded {
            return Err(GovernorError::VoteHasNotSucceeded);
        }
        self.store.mark_executed(idx);
        proof {
            assert(self@ == executed_view(old(self)@, proposal_id));
            assert forall|i: int|
                0 <= i < self@.proposals.len() implies (#[trigger] self@.proposals[
                i].vote.has_voted).no_duplicates() by {
                assert(old(self)@.proposals[i].vote.has_voted.no_duplicates());
                assert(self@.proposals[i].vote == old(self)@.proposals[i].vote);
            }
        }
        Ok(())
    }

    /// Bootstraps the membership-credential collection via the membership
    /// ledger; fails with `CollectionAlreadyCreated` if already done, and
    /// with `Failed` if the ledger refuses. On success the collection id is
    /// recorded and the bootstrap notification emitted; on failure nothing
    /// changes.
    pub fn create_collection<G: MembershipGate>(&mut self, gate: &mut G) -> (r: Result<
        (),
        RCError,
    >)
        requires
            old(self).wf(),
        ensures
            final(self).wf(),
            match r {
                Ok(()) => old(self)@.collection_id is None && exists|n: u32|
                    final(self)@ == collection_view(old(self)@, n),
                Err(e) => final(self)@ == old(self)@ && ((e == RCError::ErrorCode(
                    RCErrorCode::CollectionAlreadyCreated,
                ) && old(self)@.collection_id is Some) || (e == RCError::ErrorCode(
                    RCErrorCode::Failed,
                ) && old(self)@.collection_id is None)),
            },
    {
        if self.collection_id.is_some() {
            return Err(RCError::ErrorCode(RCErrorCode::CollectionAlreadyCreated));
        }
        let idx = gate.collection_index();
        match gate.create_collection(
            "ipfs://ipfs/QmTG9ekqrdMh3dsehLYjC19fUSmPR31Ds2h6Jd7LnMZ9c7",
            "ROO",
        ) {
            Ok(()) => {},
            Err(_) => {
                return Err(RCError::ErrorCode(RCErrorCode::Failed));
            },
        }
        self.collection_id = Some(idx);
        let ghost pre_events = self.events@;
        let symbol: String = "ROO".to_owned();
        self.events.push(GovernorEvent::Collection(CollectionCreated { collection_id: idx, symbol }));
        proof {
            lemma_events_view_push(pre_events, self.events@.last());
            assert(self.events@ =~= pre_events.push(self.events@.last()));
            assert(self@ == collection_view(old(self)@, idx));
        }
        Ok(())
    }

    /// Admits the caller to the membership pool: the payment must cover the
    /// configured price and the caller must not already be a member. A
    /// credential is minted through the membership ledger and immediately
    /// evolved once, so the new member starts at level 2. A ledger refusal
    /// surfaces as `MintFailed` or `AddResourceFailed`; on any failure
    /// nothing changes.
    pub fn become_member<G: MembershipGate>(
        &mut self,
        gate: &mut G,
        caller: AccountId,
        paid: u128,
    ) -> (r: Result<(), GovernorError>)
        requires
            old(self).wf(),
            old(self)@.collection_id is Some,
        ensures
            final(self).wf(),
            match r {
                Ok(()) => member_error(old(self)@, caller, paid) is None && exists|nft: u32|
                    final(self)@ == member_view(old(self)@, caller, nft),
                Err(e) => final(self)@ == old(self)@ && (member_error(old(self)@, caller, paid)
                    == Some(e) || (member_error(old(self)@, caller, paid) is None && (e
                    == GovernorError::MintFailed || e == GovernorError::AddResourceFailed))),
            },
    {
        if paid < self.price {
            return Err(GovernorError::InsufficientAmount);
        }
        if find_owner(&self.owners, caller).is_some() {
            return Err(GovernorError::AlreadyOwner);
        }
        let cid: u32 = match self.collection_id {
            Some(c) => c,
            None => 0,
        };
        let nft = gate.next_credential_id(cid);
        match gate.mint_credential(caller, cid, metadata_for_level(1)) {
            Ok(()) => {},
            Err(_) => {
                return Err(GovernorError::MintFailed);
            },
        }
        match gate.add_evolution_resource(cid, nft, metadata_for_level(1)) {
            Ok(()) => {},
            Err(_) => {
                return Err(GovernorError::AddResourceFailed);
            },
        }
        let ghost pre_owners = self.owners@;
        self.owners.push(OwnerRecord { account: caller, nft, lvl: 2 });
        proof {
            assert(self@ == member_view(old(self)@, caller, nft));
            assert forall|i: int, j: int|
                0 <= i < j < self@.owners.len() implies self@.owners[i].account
                != self@.owners[j].account by {
                if j == self@.owners.len() - 1 {
                    if pre_owners[i].account == caller {
                        assert(is_owner(pre_owners, caller));
                    }
                }
            }
            assert forall|i: int| 0 <= i < self@.records.len() implies is_owner(
                self@.owners,
                #[trigger] self@.records[i].delegator,
            ) by {
                assert(is_owner(pre_owners, self@.records[i].delegator));
                let w = owner_index(pre_owners, self@.records[i].delegator);
                assert(self@.owners[w].account == self@.records[i].delegator);
            }
        }
        Ok(())
    }

    /// Casts the caller's vote on a proposal: the caller must have voting
    /// power, the proposal must exist and be open for voting, and the
    /// caller must not have voted on it before. On success the caller's
    /// full current power lands in the chosen bucket, the caller is
    /// recorded as having voted, each of the caller's delegators evolves
    /// one credential level through the membership ledger, and a vote
    /// notification is emitted. A ledger refusal during evolution fails
    /// the whole call with `AddResourceFailed`; on any failure nothing
    /// changes.
    pub fn cast_vote<G: MembershipGate>(
        &mut self,
        gate: &mut G,
        caller: AccountId,
        proposal_id: ProposalId,
        vote: VoteType,
        now: u64,
    ) -> (r: Result<(), GovernorError>)
        requires
            old(self).wf(),
            cast_vote_error(old(self)@, caller, proposal_id, now) is None ==> tally_fits(
                entry_of(old(self)@.proposals, proposal_id).vote,
                vote,
                power_of(old(self)@.records, caller, u32::MAX) as u32,
            ),
            cast_vote_error(old(self)@, caller, proposal_id, now) is None ==> forall|d: AccountId|
                active_delegators(old(self)@.records, caller, u32::MAX).contains(d) ==> owner_of(
                    old(self)@.owners,
                    d,
                ).lvl < u32::MAX,
        ensures
            final(self).wf(),
            match r {
                Ok(()) => cast_vote_error(old(self)@, caller, proposal_id, now) is None
                    && final(self)@ == voted_view(old(self)@, caller, proposal_id, vote),
                Err(e) => final(self)@ == old(self)@ && (cast_vote_error(
                    old(self)@,
                    caller,
                    proposal_id,
                    now,
                ) == Some(e) || (cast_vote_error(old(self)@, caller, proposal_id, now) is None && e
                    == GovernorError::AddResourceFailed)),
            },
    {
        let power = self.ledger.votes_at(caller, u32::MAX);
        if power < 1 {
            return Err(GovernorError::InsufficientVotingPower);
        }
        let idx = match self.store.find(proposal_id) {
            Some(i) => i,
            None => {
                return Err(GovernorError::ProposalDoesNotExist);
            },
        };
        let core = self.store.core_at(idx);
        let (_, votesnap) = self.store.entry_at(idx);
        let st = evaluate_state(&core, votesnap.votes_for, votesnap.votes_against, now);
        if st != ProposalState::Active {
            return Err(GovernorError::NotOpenForVoting);
        }
        if contains_account(&votesnap.has_voted, caller) {
            return Err(GovernorError::HasAlreadyVoted);
        }
        proof {
            assert(cast_vote_error(old(self)@, caller, proposal_id, now) is None);
            lemma_power_bounded(self@.records, caller, u32::MAX);
        }
        let to_evolve = self.ledger.active_delegator_list(caller, u32::MAX);
        proof {
            assert forall|k: int| 0 <= k < to_evolve@.len() implies is_owner(
                self@.owners,
                #[trigger] to_evolve@[k],
            ) by {
                lemma_active_some_implies_match(self@.records, to_evolve@[k], u32::MAX);
                let j = choose|j: int| matches_at(self@.records, to_evolve@[k], u32::MAX, j);
                assert(is_owner(self@.owners, self@.records[j].delegator));
            }
            assert(to_evolve@.len() >= 1);
            assert(is_owner(self@.owners, to_evolve@[0]));
            assert(self@.owners.len() > 0);
            assert(self@.collection_id is Some);
        }
        let cid: u32 = match self.collection_id {
            Some(c) => c,
            None => 0,
        };
        let mut k: usize = 0;
        while k < to_evolve.len()
            invariant
                self.wf(),
                self@ == old(self)@,
                cast_vote_error(old(self)@, caller, proposal_id, now) is None,
                k <= to_evolve@.len(),
                forall|k2: int|
                    0 <= k2 < to_evolve@.len() ==> is_owner(self@.owners, #[trigger] to_evolve@[k2]),
            decreases to_evolve@.len() - k,
        {
            let acct = to_evolve[k];
            let oi: usize = match find_owner(&self.owners, acct) {
                Some(i) => i,
                None => {
                    proof {
                        assert(false);
                    }
                    0
                },
            };
            let orec = self.owners[oi];
            if orec.lvl > 1 {
                let _ = gate.remove_evolution_resource(cid, orec.nft, orec.lvl);
            }
            match gate.add_evolution_resource(cid, orec.nft, metadata_for_level(orec.lvl)) {
                Ok(()) => {},
                Err(_) => {
                    return Err(GovernorError::AddResourceFailed);
                },
            }
            k = k + 1;
        }
        proof {
            assert forall|i: int|
                (0 <= i < self.owners@.len() && to_evolve@.contains(
                    #[trigger] self.owners@[i].account,
                )) implies self.owners@[i].lvl < u32::MAX by {
                assert(to_evolve@.to_set().contains(self.owners@[i].account));
                assert(active_delegators(old(self)@.records, caller, u32::MAX).contains(
                    self.owners@[i].account,
                ));
                lemma_owner_lookup(self@.owners, i);
            }
        }
        let new_owners = evolve_levels(&self.owners, &to_evolve);
        self.owners = new_owners;
        proof {
            assert(power as nat == power_of(old(self)@.records, caller, u32::MAX));
        }
        let res = self.store.record_vote(proposal_id, caller, vote, power);
        proof {
            if res is Err {
                assert(false);
            }
        }
        match res {
            Ok(()) => {},
            Err(_) => {
                return Err(GovernorError::AddResourceFailed);
            },
        }
        let ghost pre_events = self.events@;
        self.events.push(GovernorEvent::Vote(VoteCast { voter: caller, proposal_id, vote }));
        proof {
            lemma_events_view_push(pre_events, self.events@.last());
            assert(self.events@ =~= pre_events.push(self.events@.last()));
            assert(self@.events =~= voted_view(old(self)@, caller, proposal_id, vote).events);
            assert(self@.owners == voted_view(old(self)@, caller, proposal_id, vote).owners);
            assert(self@.proposals == voted_view(old(self)@, caller, proposal_id, vote).proposals);
            assert(self@ == voted_view(old(self)@, caller, proposal_id, vote));
            assert forall|i: int, j: int|
                0 <= i < j < self@.owners.len() implies self@.owners[i].account
                != self@.owners[j].account by {
                assert(old(self)@.owners[i].account != old(self)@.owners[j].account);
            }
            assert forall|i: int| 0 <= i < self@.records.len() implies is_owner(
                self@.owners,
                #[trigger] self@.records[i].delegator,
            ) by {
                assert(is_owner(old(self)@.owners, self@.records[i].delegator));
                let w = owner_index(old(self)@.owners, self@.records[i].delegator);
                assert(self@.owners[w].account == self@.records[i].delegator);
            }
            let pidx = index_of_pid(old(self)@.proposals, proposal_id);
            assert forall|i: int|
                0 <= i < self@.proposals.len() implies (#[trigger] self@.proposals[
                i].vote.has_voted).no_duplicates() by {
                if i == pidx {
                    let oldv = old(self)@.proposals[pidx].vote.has_voted;
                    assert(oldv.no_duplicates());
                    assert(!oldv.contains(caller));
                    assert(self@.proposals[i].vote.has_voted == oldv.push(caller));
                    assert forall|p: int, q: int|
                        0 <= p < q < oldv.push(caller).len() implies oldv.push(caller)[p]
                        != oldv.push(caller)[q] by {
                        if q == oldv.len() {
                            assert(oldv.contains(oldv[p]));
                        }
                    }
                } else {
                    assert(self@.proposals[i].vote.has_voted == old(self)@.proposals[
                    i].vote.has_voted);
                    assert(old(self)@.proposals[i].vote.has_voted.no_duplicates());
                }
            }
        }
        Ok(())
    }
}

} // verus!
