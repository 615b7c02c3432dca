use rooster_governor::gate::{InMemoryGate, MembershipGate};
use rooster_governor::governor::Governor;
use rooster_governor::events::GovernorEvent;
use rooster_governor::types::{
    AccountId, GovernorError, ProposalState, RCError, RCErrorCode, RmrkError, Transaction,
    VoteType,
};

fn acct(n: u64) -> AccountId {
    AccountId { w0: n, w1: 0, w2: 0, w3: 0 }
}

fn tx(n: u64) -> Transaction {
    Transaction {
        callee: acct(1000 + n),
        selector: 1,
        input: vec![n as u8],
        transferred_value: 0,
        gas_limit: 0,
    }
}

const PRICE: u128 = 100;
const WEEK: u64 = 604_800;

/// A gate whose mint always fails.
struct MintRefusingGate;

impl MembershipGate for MintRefusingGate {
    fn collection_index(&mut self) -> u32 {
        7
    }
    fn create_collection(&mut self, _metadata: &str, _symbol: &str) -> Result<(), RmrkError> {
        Ok(())
    }
    fn next_credential_id(&mut self, _collection_id: u32) -> u32 {
        1
    }
    fn mint_credential(
        &mut self,
        _owner: AccountId,
        _collection_id: u32,
        _metadata: &str,
    ) -> Result<(), RmrkError> {
        Err(RmrkError::ErrorCode(rooster_governor::types::RmrkErrorCode::Failed))
    }
    fn add_evolution_resource(
        &mut self,
        _collection_id: u32,
        _credential_id: u32,
        _metadata: &str,
    ) -> Result<(), RmrkError> {
        Ok(())
    }
    fn remove_evolution_resource(
        &mut self,
        _collection_id: u32,
        _credential_id: u32,
        _resource_id: u32,
    ) -> Result<(), RmrkError> {
        Ok(())
    }
}

/// A gate that refuses every resource attachment.
struct ResourceRefusingGate;

impl MembershipGate for ResourceRefusingGate {
    fn collection_index(&mut self) -> u32 {
        7
    }
    fn create_collection(&mut self, _metadata: &str, _symbol: &str) -> Result<(), RmrkError> {
        Ok(())
    }
    fn next_credential_id(&mut self, _collection_id: u32) -> u32 {
        1
    }
    fn mint_credential(
        &mut self,
        _owner: AccountId,
        _collection_id: u32,
        _metadata: &str,
    ) -> Result<(), RmrkError> {
        Ok(())
    }
    fn add_evolution_resource(
        &mut self,
        _collection_id: u32,
        _credential_id: u32,
        _metadata: &str,
    ) -> Result<(), RmrkError> {
        Err(RmrkError::ErrorCode(rooster_governor::types::RmrkErrorCode::Failed))
    }
    fn remove_evolution_resource(
        &mut self,
        _collection_id: u32,
        _credential_id: u32,
        _resource_id: u32,
    ) -> Result<(), RmrkError> {
        Ok(())
    }
}

/// A fresh engine with a bootstrapped collection.
fn dao() -> (Governor, InMemoryGate) {
    let mut g = Governor::new(Some(String::from("RoosterDAO")), 0, WEEK, 0, PRICE);
    let mut gate = InMemoryGate::new();
    g.create_collection(&mut gate).unwrap();
    (g, gate)
}

/// Adds a self-delegating member so the account has voting power 1.
fn add_voter(g: &mut Governor, gate: &mut InMemoryGate, a: AccountId, block: u32) {
    g.become_member(gate, a, PRICE).unwrap();
    g.delegate(a, a, block).unwrap();
}

#[test]
fn getters_report_configuration() {
    let (g, _) = dao();
    assert_eq!(g.name(), Some(String::from("RoosterDAO")));
    assert_eq!(g.voting_delay(), 0);
    assert_eq!(g.voting_period(), WEEK);
    assert_eq!(g.get_nft_price(), PRICE);
    let unnamed = Governor::new(None, 1, 2, 3, 4);
    assert_eq!(unnamed.name(), None);
    assert_eq!(unnamed.voting_delay(), 1);
    assert_eq!(unnamed.voting_period(), 2);
    assert_eq!(unnamed.execution_delay(), 3);
    assert_eq!(unnamed.get_nft_price(), 4);
}

#[test]
fn create_collection_twice_fails() {
    let (mut g, mut gate) = dao();
    let r = g.create_collection(&mut gate);
    assert_eq!(r, Err(RCError::ErrorCode(RCErrorCode::CollectionAlreadyCreated)));
}

/// A gate that refuses to create a collection.
struct CollectionRefusingGate;

impl MembershipGate for CollectionRefusingGate {
    fn collection_index(&mut self) -> u32 {
        0
    }
    fn create_collection(&mut self, _metadata: &str, _symbol: &str) -> Result<(), RmrkError> {
        Err(RmrkError::ErrorCode(rooster_governor::types::RmrkErrorCode::Failed))
    }
    fn next_credential_id(&mut self, _collection_id: u32) -> u32 {
        1
    }
    fn mint_credential(
        &mut self,
        _owner: AccountId,
        _collection_id: u32,
        _metadata: &str,
    ) -> Result<(), RmrkError> {
        Ok(())
    }
    fn add_evolution_resource(
        &mut self,
        _collection_id: u32,
        _credential_id: u32,
        _metadata: &str,
    ) -> Result<(), RmrkError> {
        Ok(())
    }
    fn remove_evolution_resource(
        &mut self,
        _collection_id: u32,
        _credential_id: u32,
        _resource_id: u32,
    ) -> Result<(), RmrkError> {
        Ok(())
    }
}

#[test]
fn refused_bootstrap_fails_and_changes_nothing() {
    let mut g = Governor::new(None, 0, WEEK, 0, PRICE);
    let mut refusing = CollectionRefusingGate;
    let r = g.create_collection(&mut refusing);
    assert_eq!(r, Err(RCError::ErrorCode(RCErrorCode::Failed)));
    assert_eq!(g.events().len(), 0);
    // with a willing ledger the bootstrap then succeeds
    let mut gate = InMemoryGate::new();
    g.create_collection(&mut gate).unwrap();
    assert_eq!(g.events().len(), 1);
}

#[test]
fn collection_created_event_is_emitted() {
    let (g, _) = dao();
    let events = g.events();
    assert_eq!(events.len(), 1);
    match &events[0] {
        GovernorEvent::Collection(e) => {
            assert_eq!(e.symbol, "ROO");
        },
        _ => panic!("expected a collection event"),
    }
}

#[test]
fn propose_without_credential_fails_then_succeeds_after_join() {
    // account with no membership credential calls propose -> NotOwner;
    // after become_member with sufficient payment the same call succeeds
    let (mut g, mut gate) = dao();
    let a = acct(1);
    let r = g.propose(a, tx(1), String::from("raise the roost"), 0);
    assert_eq!(r, Err(GovernorError::NotOwner));
    g.become_member(&mut gate, a, PRICE).unwrap();
    let r = g.propose(a, tx(1), String::from("raise the roost"), 0);
    assert!(r.is_ok());
}

#[test]
fn become_member_underpaid_fails() {
    let (mut g, mut gate) = dao();
    let r = g.become_member(&mut gate, acct(1), PRICE - 1);
    assert_eq!(r, Err(GovernorError::InsufficientAmount));
}

#[test]
fn become_member_twice_fails() {
    let (mut g, mut gate) = dao();
    g.become_member(&mut gate, acct(1), PRICE).unwrap();
    let r = g.become_member(&mut gate, acct(1), PRICE);
    assert_eq!(r, Err(GovernorError::AlreadyOwner));
}

#[test]
fn become_member_mint_refused_fails() {
    let mut g = Governor::new(None, 0, WEEK, 0, PRICE);
    let mut boot = InMemoryGate::new();
    g.create_collection(&mut boot).unwrap();
    let mut gate = MintRefusingGate;
    let r = g.become_member(&mut gate, acct(1), PRICE);
    assert_eq!(r, Err(GovernorError::MintFailed));
    assert_eq!(g.get_nft(acct(1)), Err(GovernorError::NotOwner));
}

#[test]
fn become_member_resource_refused_fails() {
    let mut g = Governor::new(None, 0, WEEK, 0, PRICE);
    let mut boot = InMemoryGate::new();
    g.create_collection(&mut boot).unwrap();
    let mut gate = ResourceRefusingGate;
    let r = g.become_member(&mut gate, acct(1), PRICE);
    assert_eq!(r, Err(GovernorError::AddResourceFailed));
    assert_eq!(g.get_nft(acct(1)), Err(GovernorError::NotOwner));
}

#[test]
fn get_nft_reports_credential() {
    let (mut g, mut gate) = dao();
    g.become_member(&mut gate, acct(1), PRICE).unwrap();
    let (cid, nft) = g.get_nft(acct(1)).unwrap();
    assert_eq!(cid, 0);
    assert_eq!(nft, 1);
    assert_eq!(g.get_nft(acct(2)), Err(GovernorError::NotOwner));
}

#[test]
fn duplicate_proposal_is_rejected() {
    let (mut g, mut gate) = dao();
    let a = acct(1);
    g.become_member(&mut gate, a, PRICE).unwrap();
    g.propose(a, tx(1), String::from("same thing"), 0).unwrap();
    let r = g.propose(a, tx(1), String::from("same thing"), 5);
    assert_eq!(r, Err(GovernorError::ProposalAlreadyExists));
}

#[test]
fn proposal_window_and_snapshot() {
    let mut g = Governor::new(None, 10, 50, 0, PRICE);
    let mut gate = InMemoryGate::new();
    g.create_collection(&mut gate).unwrap();
    let a = acct(1);
    g.become_member(&mut gate, a, PRICE).unwrap();
    let id = g.propose(a, tx(1), String::from("later"), 100).unwrap();
    assert_eq!(g.proposal_snapshot(id), 110);
    assert_eq!(g.proposal_deadline(id), 160);
    assert_eq!(g.state(id, 100), ProposalState::Pending);
    assert_eq!(g.state(id, 110), ProposalState::Active);
    assert_eq!(g.state(id, 159), ProposalState::Active);
    assert_eq!(g.state(id, 160), ProposalState::Defeated);
}

#[test]
fn delegation_gives_and_moves_power() {
    // delegator D delegates to A at block 5 and to B at block 10:
    // afterwards A's power must not count D, and B's must count D once
    let (mut g, mut gate) = dao();
    let (d, a, b) = (acct(1), acct(2), acct(3));
    g.become_member(&mut gate, d, PRICE).unwrap();
    g.delegate(d, a, 5).unwrap();
    assert_eq!(g.get_votes(a), 1);
    assert_eq!(g.get_votes(b), 0);
    g.delegate(d, b, 10).unwrap();
    assert_eq!(g.get_votes(a), 0);
    assert_eq!(g.get_votes(b), 1);
}

#[test]
fn past_votes_are_stable_under_later_delegations() {
    // delegations at blocks b1 < b2 < b3 by the same delegator: the power
    // at b1 reads the same before and after the later records are appended
    let (mut g, mut gate) = dao();
    let (d, a, b, c) = (acct(1), acct(2), acct(3), acct(4));
    g.become_member(&mut gate, d, PRICE).unwrap();
    g.delegate(d, a, 1).unwrap();
    let before_a = g.get_past_votes(a, 1);
    let before_b = g.get_past_votes(b, 1);
    g.delegate(d, b, 2).unwrap();
    g.delegate(d, c, 3).unwrap();
    assert_eq!(g.get_past_votes(a, 1), before_a);
    assert_eq!(g.get_past_votes(b, 1), before_b);
    assert_eq!(g.get_past_votes(a, 1), 1);
    // and at the later checkpoints the latest delegation wins
    assert_eq!(g.get_past_votes(b, 2), 1);
    assert_eq!(g.get_past_votes(c, 3), 1);
    assert_eq!(g.get_votes(c), 1);
}

#[test]
fn delegate_without_credential_fails() {
    let (mut g, _) = dao();
    let r = g.delegate(acct(1), acct(2), 1);
    assert_eq!(r, Err(GovernorError::NotOwner));
}

#[test]
fn delegate_emits_change_and_power_events() {
    let (mut g, mut gate) = dao();
    let (d, a) = (acct(1), acct(2));
    g.become_member(&mut gate, d, PRICE).unwrap();
    let n = g.events().len();
    g.delegate(d, a, 5).unwrap();
    let events = g.events();
    assert_eq!(events.len(), n + 3);
    match &events[n] {
        GovernorEvent::Delegation(e) => {
            assert_eq!(e.delegator, d);
            assert_eq!(e.from_delegate, AccountId::zero());
            assert_eq!(e.to_delegate, a);
        },
        _ => panic!("expected a delegation event"),
    }
    match &events[n + 1] {
        GovernorEvent::Votes(e) => {
            assert_eq!(e.delegate, AccountId::zero());
            assert_eq!(e.votes, 0);
        },
        _ => panic!("expected a votes event"),
    }
    match &events[n + 2] {
        GovernorEvent::Votes(e) => {
            assert_eq!(e.delegate, a);
            assert_eq!(e.votes, 1);
        },
        _ => panic!("expected a votes event"),
    }
}

#[test]
fn immediate_voting_scenario_tie_is_defeated() {
    // voting_delay = 0, voting_period = 604800: the proposal is active at
    // once; one For and one Against make a tie, and a tie is a defeat
    let (mut g, mut gate) = dao();
    let (a, b) = (acct(1), acct(2));
    add_voter(&mut g, &mut gate, a, 1);
    add_voter(&mut g, &mut gate, b, 2);
    let id = g.propose(a, tx(1), String::from("tie vote"), 0).unwrap();
    assert_eq!(g.state(id, 0), ProposalState::Active);
    g.cast_vote(&mut gate, a, id, VoteType::For, 0).unwrap();
    assert_eq!(g.proposal_votes(id), (0, 1, 0));
    g.cast_vote(&mut gate, b, id, VoteType::Against, 1).unwrap();
    assert_eq!(g.proposal_votes(id), (1, 1, 0));
    assert_eq!(g.state(id, 1), ProposalState::Active);
    assert_eq!(g.state(id, WEEK), ProposalState::Defeated);
}

#[test]
fn majority_for_succeeds_and_executes() {
    let (mut g, mut gate) = dao();
    let (a, b, c) = (acct(1), acct(2), acct(3));
    add_voter(&mut g, &mut gate, a, 1);
    add_voter(&mut g, &mut gate, b, 2);
    add_voter(&mut g, &mut gate, c, 3);
    let id = g.propose(a, tx(1), String::from("majority"), 0).unwrap();
    g.cast_vote(&mut gate, a, id, VoteType::For, 0).unwrap();
    g.cast_vote(&mut gate, b, id, VoteType::For, 0).unwrap();
    g.cast_vote(&mut gate, c, id, VoteType::Against, 0).unwrap();
    assert_eq!(g.proposal_votes(id), (1, 2, 0));
    assert_eq!(g.state(id, WEEK), ProposalState::Succeeded);
    // execute before the window closes: not yet succeeded
    assert_eq!(g.execute(id, 0), Err(GovernorError::VoteHasNotSucceeded));
    g.execute(id, WEEK).unwrap();
    // executed wins regardless of time and tallies
    assert_eq!(g.state(id, 0), ProposalState::Executed);
    assert_eq!(g.state(id, WEEK), ProposalState::Executed);
    assert_eq!(g.state(id, u64::MAX), ProposalState::Executed);
}

#[test]
fn abstain_counts_in_its_own_bucket() {
    let (mut g, mut gate) = dao();
    let a = acct(1);
    add_voter(&mut g, &mut gate, a, 1);
    let id = g.propose(a, tx(1), String::from("abstain"), 0).unwrap();
    g.cast_vote(&mut gate, a, id, VoteType::Abstain, 0).unwrap();
    assert_eq!(g.proposal_votes(id), (0, 0, 1));
    // only for/against decide: no for-majority, so defeated
    assert_eq!(g.state(id, WEEK), ProposalState::Defeated);
}

#[test]
fn voting_twice_fails_and_changes_nothing() {
    // after one successful cast_vote, every further cast_vote by the same
    // account on the same proposal fails with HasAlreadyVoted and the
    // tallies are unchanged
    let (mut g, mut gate) = dao();
    let a = acct(1);
    add_voter(&mut g, &mut gate, a, 1);
    let id = g.propose(a, tx(1), String::from("once"), 0).unwrap();
    g.cast_vote(&mut gate, a, id, VoteType::For, 0).unwrap();
    assert!(g.has_voted(id, a));
    let tally = g.proposal_votes(id);
    let r = g.cast_vote(&mut gate, a, id, VoteType::Against, 1);
    assert_eq!(r, Err(GovernorError::HasAlreadyVoted));
    assert_eq!(g.proposal_votes(id), tally);
    let r = g.cast_vote(&mut gate, a, id, VoteType::For, 2);
    assert_eq!(r, Err(GovernorError::HasAlreadyVoted));
    assert_eq!(g.proposal_votes(id), tally);
}

#[test]
fn vote_without_power_fails() {
    let (mut g, mut gate) = dao();
    let (a, b) = (acct(1), acct(2));
    add_voter(&mut g, &mut gate, a, 1);
    // b is a member but nobody delegates to it
    g.become_member(&mut gate, b, PRICE).unwrap();
    let id = g.propose(a, tx(1), String::from("powerless"), 0).unwrap();
    let r = g.cast_vote(&mut gate, b, id, VoteType::For, 0);
    assert_eq!(r, Err(GovernorError::InsufficientVotingPower));
}

#[test]
fn vote_on_unknown_proposal_fails() {
    let (mut g, mut gate) = dao();
    let a = acct(1);
    add_voter(&mut g, &mut gate, a, 1);
    let id = g.hash_proposal(&tx(9), &String::from("never proposed"));
    let r = g.cast_vote(&mut gate, a, id, VoteType::For, 0);
    assert_eq!(r, Err(GovernorError::ProposalDoesNotExist));
}

#[test]
fn vote_outside_window_fails() {
    let mut g = Governor::new(None, 10, 50, 0, PRICE);
    let mut gate = InMemoryGate::new();
    g.create_collection(&mut gate).unwrap();
    let a = acct(1);
    add_voter(&mut g, &mut gate, a, 1);
    let id = g.propose(a, tx(1), String::from("window"), 100).unwrap();
    // pending: voting has not started
    let r = g.cast_vote(&mut gate, a, id, VoteType::For, 105);
    assert_eq!(r, Err(GovernorError::NotOpenForVoting));
    // closed: voting is over
    let r = g.cast_vote(&mut gate, a, id, VoteType::For, 160);
    assert_eq!(r, Err(GovernorError::NotOpenForVoting));
}

#[test]
fn vote_weight_is_number_of_delegators() {
    let (mut g, mut gate) = dao();
    let (a, d1, d2) = (acct(1), acct(2), acct(3));
    add_voter(&mut g, &mut gate, a, 1);
    g.become_member(&mut gate, d1, PRICE).unwrap();
    g.become_member(&mut gate, d2, PRICE).unwrap();
    g.delegate(d1, a, 2).unwrap();
    g.delegate(d2, a, 3).unwrap();
    assert_eq!(g.get_votes(a), 3);
    let id = g.propose(a, tx(1), String::from("weighted"), 0).unwrap();
    g.cast_vote(&mut gate, a, id, VoteType::For, 0).unwrap();
    assert_eq!(g.proposal_votes(id), (0, 3, 0));
}

#[test]
fn execute_unknown_proposal_fails() {
    let (mut g, _) = dao();
    let id = g.hash_proposal(&tx(9), &String::from("missing"));
    assert_eq!(g.execute(id, 0), Err(GovernorError::ProposalDoesNotExist));
}

#[test]
fn execute_defeated_proposal_fails() {
    let (mut g, mut gate) = dao();
    let a = acct(1);
    add_voter(&mut g, &mut gate, a, 1);
    let id = g.propose(a, tx(1), String::from("defeated"), 0).unwrap();
    g.cast_vote(&mut gate, a, id, VoteType::Against, 0).unwrap();
    assert_eq!(g.state(id, WEEK), ProposalState::Defeated);
    assert_eq!(g.execute(id, WEEK), Err(GovernorError::VoteHasNotSucceeded));
}

#[test]
fn voting_evolves_the_delegators_credential() {
    let (mut g, mut gate) = dao();
    let a = acct(1);
    add_voter(&mut g, &mut gate, a, 1);
    let id = g.propose(a, tx(1), String::from("evolve"), 0).unwrap();
    let before = gate.resources.len();
    g.cast_vote(&mut gate, a, id, VoteType::For, 0).unwrap();
    // one evolution resource was attached for the voter's single delegator
    assert_eq!(gate.resources.len(), before + 1);
    // a member enters at level 2, so the vote evolves it from level 2
    let (_, _, metadata) = &gate.resources[before];
    assert_eq!(metadata, "ipfs://ipfs/QmSvdCbp8VCPcptoQfZUZ725fd3gyuc8bao1qpykba9zEm");
}

#[test]
fn failed_evolution_aborts_the_vote() {
    let (mut g, mut gate) = dao();
    let a = acct(1);
    add_voter(&mut g, &mut gate, a, 1);
    let id = g.propose(a, tx(1), String::from("strict"), 0).unwrap();
    let mut refusing = ResourceRefusingGate;
    let r = g.cast_vote(&mut refusing, a, id, VoteType::For, 0);
    assert_eq!(r, Err(GovernorError::AddResourceFailed));
    // the whole call aborted: no tally, no voter recorded
    assert_eq!(g.proposal_votes(id), (0, 0, 0));
    assert!(!g.has_voted(id, a));
    // with a willing ledger the same vote then succeeds
    g.cast_vote(&mut gate, a, id, VoteType::For, 0).unwrap();
    assert_eq!(g.proposal_votes(id), (0, 1, 0));
}

#[test]
fn vote_cast_event_is_emitted() {
    let (mut g, mut gate) = dao();
    let a = acct(1);
    add_voter(&mut g, &mut gate, a, 1);
    let id = g.propose(a, tx(1), String::from("event"), 0).unwrap();
    g.cast_vote(&mut gate, a, id, VoteType::For, 0).unwrap();
    let events = g.events();
    match events.last().unwrap() {
        GovernorEvent::Vote(e) => {
            assert_eq!(e.voter, a);
            assert_eq!(e.proposal_id, id);
            assert_eq!(e.vote, VoteType::For);
        },
        _ => panic!("expected a vote event"),
    }
}

#[test]
fn proposal_created_event_carries_the_content() {
    let (mut g, mut gate) = dao();
    let a = acct(1);
    g.become_member(&mut gate, a, PRICE).unwrap();
    let id = g.propose(a, tx(4), String::from("content"), 20).unwrap();
    let events = g.events();
    match events.last().unwrap() {
        GovernorEvent::Proposal(e) => {
            assert_eq!(e.proposal_id, id);
            assert_eq!(e.proposer, a);
            assert_eq!(e.description, "content");
            assert_eq!(e.transaction, tx(4));
            assert_eq!(e.vote_start, 20);
            assert_eq!(e.vote_end, 20 + WEEK);
        },
        _ => panic!("expected a proposal event"),
    }
}

#[test]
fn list_owners_reports_members_and_power() {
    let (mut g, mut gate) = dao();
    let (a, b) = (acct(1), acct(2));
    g.become_member(&mut gate, a, PRICE).unwrap();
    g.become_member(&mut gate, b, PRICE).unwrap();
    g.delegate(a, b, 1).unwrap();
    let owners = g.list_owners();
    assert_eq!(owners.len(), 2);
    assert_eq!(owners[0], (a, 1, 0));
    assert_eq!(owners[1], (b, 2, 1));
}

#[test]
fn list_proposals_reports_tallies_in_order() {
    let (mut g, mut gate) = dao();
    let a = acct(1);
    add_voter(&mut g, &mut gate, a, 1);
    let id1 = g.propose(a, tx(1), String::from("first"), 0).unwrap();
    let id2 = g.propose(a, tx(2), String::from("second"), 0).unwrap();
    g.cast_vote(&mut gate, a, id2, VoteType::For, 0).unwrap();
    let list = g.list_proposals();
    assert_eq!(list.len(), 2);
    assert_eq!(list[0].0, id1);
    assert_eq!(list[1].0, id2);
    assert_eq!(list[0].1.votes_for, 0);
    assert_eq!(list[1].1.votes_for, 1);
    assert_eq!(list[1].1.has_voted, vec![a]);
}

#[test]
fn has_voted_is_false_for_unknown_proposal() {
    let (g, _) = dao();
    let id = g.hash_proposal(&tx(9), &String::from("nothing"));
    assert!(!g.has_voted(id, acct(1)));
}
