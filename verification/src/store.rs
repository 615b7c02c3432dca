//! The proposal store: proposal cores and their tallies, keyed by proposal
//! id. A core and its tally are created together and always exist as a
//! pair; tallies only grow, and a voter is recorded at most once.

use vstd::prelude::*;

use crate::delegation::contains_account;
use crate::types::{AccountId, GovernorError, ProposalCore, ProposalId, ProposalVote, ProposalVoteV, VoteType};

verus! {

/// One stored proposal: its id, its core facts and its tally.
#[derive(Debug)]
pub struct ProposalEntry {
    pub id: ProposalId,
    pub core: ProposalCore,
    pub vote: ProposalVote,
}

/// The mathematical value of a [`ProposalEntry`].
pub struct ProposalEntryV {
    pub id: ProposalId,
    pub core: ProposalCore,
    pub vote: ProposalVoteV,
}

impl View for ProposalEntry {
    type V = ProposalEntryV;

    open spec fn view(&self) -> ProposalEntryV {
        ProposalEntryV { id: self.id, core: self.core, vote: self.vote@ }
    }
}

/// Whether a proposal with the given id is stored.
pub open spec fn has_proposal(s: Seq<ProposalEntryV>, id: ProposalId) -> bool {
    exists|i: int| 0 <= i < s.len() && s[i].id == id
}

/// The index of the proposal with the given id (meaningful when present).
pub open spec fn index_of_pid(s: Seq<ProposalEntryV>, id: ProposalId) -> int {
    choose|i: int| 0 <= i < s.len() && s[i].id == id
}

/// The stored entry of the proposal with the given id (meaningful when
/// present).
pub open spec fn entry_of(s: Seq<ProposalEntryV>, id: ProposalId) -> ProposalEntryV {
    s[index_of_pid(s, id)]
}

/// Whether every stored proposal has a distinct id.
pub open spec fn unique_ids(s: Seq<ProposalEntryV>) -> bool {
    forall|i: int, j: int| 0 <= i < j < s.len() ==> s[i].id != s[j].id
}

/// Copies a vector of accounts.
pub fn copy_accounts(v: &Vec<AccountId>) -> (r: Vec<AccountId>)
    ensures
        r@ == v@,
{
    let mut r: Vec<AccountId> = Vec::new();
    let mut i: usize = 0;
    while i < v.len()
        invariant
            i <= v@.len(),
            r@ == v@.subrange(0, i as int),
        decreases v@.len() - i,
    {
        r.push(v[i]);
        i = i + 1;
        assert(r@ =~= v@.subrange(0, i as int));
    }
    assert(r@ =~= v@);
    r
}

/// Copies a tally.
pub fn copy_vote(v: &ProposalVote) -> (r: ProposalVote)
    ensures
        r@ == v@,
{
    ProposalVote {
        votes_against: v.votes_against,
        votes_for: v.votes_for,
        votes_abstain: v.votes_abstain,
        has_voted: copy_accounts(&v.has_voted),
    }
}

/// The store of all proposals and their tallies.
pub struct ProposalStore {
    entries: Vec<ProposalEntry>,
}

impl View for ProposalStore {
    type V = Seq<ProposalEntryV>;

    closed spec fn view(&self) -> Seq<ProposalEntryV> {
        self.entries@.map_values(|e: ProposalEntry| e@)
    }
}

impl ProposalStore {
    /// Well-formed: ids are unique.
    pub open spec fn wf(self) -> bool {
        unique_ids(self@)
    }

    pub fn new() -> (r: ProposalStore)
        ensures
            r@ == Seq::<ProposalEntryV>::empty(),
            r.wf(),
    {
        let r = ProposalStore { entries: Vec::new() };
        proof {
            assert(r@ =~= Seq::<ProposalEntryV>::empty());
        }
        r
    }

    pub fn count(&self) -> (r: usize)
        ensures
            r == self@.len(),
    {
        self.entries.len()
    }

    /// Finds the index of the proposal with the given id.
    pub fn find(&self, id: ProposalId) -> (r: Option<usize>)
        requires
            self.wf(),
        ensures
            match r {
                Some(i) => has_proposal(self@, id) && i as int == index_of_pid(self@, id) && 0 <= i
                    < self@.len() && self@[i as int].id == id,
                None => !has_proposal(self@, id),
            },
    {
        let mut i: usize = 0;
        while i < self.entries.len()
            invariant
                self.wf(),
                i <= self@.len(),
                self@.len() == self.entries@.len(),
                forall|k: int| 0 <= k < i ==> self@[k].id != id,
                forall|k: int| 0 <= k < self@.len() ==> self@[k] == self.entries@[k]@,
            decreases self@.len() - i,
        {
            if self.entries[i].id == id {
                proof {
                    assert(self@[i as int].id == id);
                    let j = index_of_pid(self@, id);
                    assert(0 <= j < self@.len() && self@[j].id == id);
                    if j < i as int {
                        assert(self@[j].id != self@[i as int].id);
                        assert(false);
                    } else if j > i as int {
                        assert(self@[i as int].id != self@[j].id);
                        assert(false);
                    }
                }
                return Some(i);
            }
            i = i + 1;
        }
        None
    }

    /// Whether a proposal with the given id is stored.
    pub fn contains(&self, id: ProposalId) -> (r: bool)
        requires
            self.wf(),
        ensures
            r == has_proposal(self@, id),
    {
        self.find(id).is_some()
    }

    /// Inserts a fresh proposal with its core and its tally; fails if the
    /// id is already present, leaving the store unchanged.
    pub fn insert(&mut self, id: ProposalId, core: ProposalCore, vote: ProposalVote) -> (r: Result<
        (),
        GovernorError,
    >)
        requires
            old(self).wf(),
        ensures
            final(self).wf(),
            match r {
                Ok(()) => !has_proposal(old(self)@, id) && final(self)@ == old(self)@.push(
                    ProposalEntryV { id, core, vote: vote@ },
                ),
                Err(e) => e == GovernorError::ProposalAlreadyExists && has_proposal(old(self)@, id)
                    && final(self)@ == old(self)@,
            },
    {
        if self.contains(id) {
            return Err(GovernorError::ProposalAlreadyExists);
        }
        let ghost before = self@;
        self.entries.push(ProposalEntry { id, core, vote });
        proof {
            assert(self@ =~= before.push(ProposalEntryV { id, core, vote: vote@ }));
            assert forall|i: int, j: int| 0 <= i < j < self@.len() implies self@[i].id
                != self@[j].id by {
                if j == self@.len() - 1 {
                    assert(!has_proposal(before, id));
                    if before[i].id == id {
                        assert(has_proposal(before, id));
                    }
                }
            }
        }
        Ok(())
    }

    /// The core facts of the proposal with the given id.
    pub fn get_core(&self, id: ProposalId) -> (r: Result<ProposalCore, GovernorError>)
        requires
            self.wf(),
        ensures
            match r {
                Ok(core) => has_proposal(self@, id) && core == entry_of(self@, id).core,
                Err(e) => e == GovernorError::ProposalDoesNotExist && !has_proposal(self@, id),
            },
    {
        match self.find(id) {
            Some(i) => Ok(self.entries[i].core),
            None => Err(GovernorError::ProposalDoesNotExist),
        }
    }

    /// The tally of the proposal with the given id.
    pub fn get_vote(&self, id: ProposalId) -> (r: Result<ProposalVote, GovernorError>)
        requires
            self.wf(),
        ensures
            match r {
                Ok(vote) => has_proposal(self@, id) && vote@ == entry_of(self@, id).vote,
                Err(e) => e == GovernorError::ProposalDoesNotExist && !has_proposal(self@, id),
            },
    {
        match self.find(id) {
            Some(i) => Ok(copy_vote(&self.entries[i].vote)),
            None => Err(GovernorError::ProposalDoesNotExist),
        }
    }

    /// The entry at a given position, for listing.
    pub fn entry_at(&self, i: usize) -> (r: (ProposalId, ProposalVote))
        requires
            i < self@.len(),
        ensures
            r.0 == self@[i as int].id,
            r.1@ == self@[i as int].vote,
    {
        let e = &self.entries[i];
        (e.id, copy_vote(&e.vote))
    }

    /// The core at a given position, for listing.
    pub fn core_at(&self, i: usize) -> (r: ProposalCore)
        requires
            i < self@.len(),
        ensures
            r == self@[i as int].core,
    {
        self.entries[i].core
    }

    /// Marks the proposal at position `i` as executed; everything else is
    /// unchanged.
    pub fn mark_executed(&mut self, i: usize)
        requires
            old(self).wf(),
            i < old(self)@.len(),
        ensures
            final(self).wf(),
            final(self)@ == old(self)@.update(i as int, executed_entry(old(self)@[i as int])),
    {
        let ghost before = self@;
        let entry = &mut self.entries[i];
        entry.core.executed = true;
        proof {
            assert(self@ =~= before.update(i as int, executed_entry(before[i as int])));
            assert forall|a: int, b: int| 0 <= a < b < self@.len() implies self@[a].id
                != self@[b].id by {
                assert(before[a].id != before[b].id);
            }
        }
    }

    /// Records a vote of weight `power` for `voter` on the given proposal:
    /// adds `power` to the chosen bucket and `voter` to the voters. Fails
    /// without change if the proposal is missing or the voter has already
    /// voted.
    pub fn record_vote(
        &mut self,
        id: ProposalId,
        voter: AccountId,
        choice: VoteType,
        power: u32,
    ) -> (r: Result<(), GovernorError>)
        requires
            old(self).wf(),
            has_proposal(old(self)@, id) ==> tally_fits(entry_of(old(self)@, id).vote, choice, power),
        ensures
            final(self).wf(),
            match r {
                Ok(()) => {
                    &&& has_proposal(old(self)@, id)
                    &&& !entry_of(old(self)@, id).vote.has_voted.contains(voter)
                    &&& final(self)@ == old(self)@.update(
                        index_of_pid(old(self)@, id),
                        tallied_entry(entry_of(old(self)@, id), voter, choice, power),
                    )
                },
                Err(e) => final(self)@ == old(self)@ && ((e
                    == GovernorError::ProposalDoesNotExist && !has_proposal(old(self)@, id)) || (e
                    == GovernorError::HasAlreadyVoted && has_proposal(old(self)@, id) && entry_of(
                    old(self)@,
                    id,
                ).vote.has_voted.contains(voter))),
            },
    {
        let idx = match self.find(id) {
            Some(i) => i,
            None => {
                return Err(GovernorError::ProposalDoesNotExist);
            },
        };
        let ghost before = self@;
        if contains_account(&self.entries[idx].vote.has_voted, voter) {
            return Err(GovernorError::HasAlreadyVoted);
        }
        let entry = &mut self.entries[idx];
        match choice {
            VoteType::Against => {
                entry.vote.votes_against = entry.vote.votes_against + power;
            },
            VoteType::For => {
                entry.vote.votes_for = entry.vote.votes_for + power;
            },
            VoteType::Abstain => {
                entry.vote.votes_abstain = entry.vote.votes_abstain + power;
            },
        }
        entry.vote.has_voted.push(voter);
        proof {
            assert(self@ =~= before.update(
                index_of_pid(before, id),
                tallied_entry(entry_of(before, id), voter, choice, power),
            ));
            assert forall|i: int, j: int| 0 <= i < j < self@.len() implies self@[i].id
                != self@[j].id by {
                assert(before[i].id != before[j].id);
            }
        }
        Ok(())
    }
}

/// Updating the entry that holds `id`, without changing its id, preserves
/// uniqueness and makes lookup return the new entry.
pub proof fn lemma_entry_after_update(s: Seq<ProposalEntryV>, id: ProposalId, e: ProposalEntryV)
    requires
        unique_ids(s),
        has_proposal(s, id),
        e.id == id,
    ensures
        unique_ids(s.update(index_of_pid(s, id), e)),
        has_proposal(s.update(index_of_pid(s, id), e), id),
        entry_of(s.update(index_of_pid(s, id), e), id) == e,
{
    let i = index_of_pid(s, id);
    assert(0 <= i < s.len() && s[i].id == id);
    let s2 = s.update(i, e);
    assert forall|a: int, b: int| 0 <= a < b < s2.len() implies s2[a].id != s2[b].id by {
        assert(s[a].id != s[b].id);
    }
    assert(s2[i].id == id);
    assert(has_proposal(s2, id));
    let j = index_of_pid(s2, id);
    assert(0 <= j < s2.len() && s2[j].id == id);
    if j < i {
        assert(s[j].id != s[i].id);
        assert(false);
    } else if j > i {
        assert(s[i].id != s[j].id);
        assert(false);
    }
}

/// The entry after its core is marked executed.
pub open spec fn executed_entry(e: ProposalEntryV) -> ProposalEntryV {
    ProposalEntryV {
        id: e.id,
        core: ProposalCore {
            vote_start: e.core.vote_start,
            vote_end: e.core.vote_end,
            executed: true,
            canceled: e.core.canceled,
        },
        vote: e.vote,
    }
}

/// Whether adding `power` to the bucket chosen by `choice` stays within the
/// counter's width.
pub open spec fn tally_fits(vote: ProposalVoteV, choice: VoteType, power: u32) -> bool {
    match choice {
        VoteType::Against => vote.votes_against + power <= u32::MAX,
        VoteType::For => vote.votes_for + power <= u32::MAX,
        VoteType::Abstain => vote.votes_abstain + power <= u32::MAX,
    }
}

/// The entry after a vote of weight `power` by `voter` is recorded.
pub open spec fn tallied_entry(
    e: ProposalEntryV,
    voter: AccountId,
    choice: VoteType,
    power: u32,
) -> ProposalEntryV {
    ProposalEntryV {
        id: e.id,
        core: e.core,
        vote: ProposalVoteV {
            votes_against: if choice == VoteType::Against {
                (e.vote.votes_against + power) as u32
            } else {
                e.vote.votes_against
            },
            votes_for: if choice == VoteType::For {
                (e.vote.votes_for + power) as u32
            } else {
                e.vote.votes_for
            },
            votes_abstain: if choice == VoteType::Abstain {
                (e.vote.votes_abstain + power) as u32
            } else {
                e.vote.votes_abstain
            },
            has_voted: e.vote.has_voted.push(voter),
        },
    }
}

} // verus!
