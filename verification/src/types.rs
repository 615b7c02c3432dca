//! Plain data types of the governance engine: identifiers, proposal records,
//! vote tallies, lifecycle states and error kinds.

use vstd::prelude::*;

verus! {

/// A 256-bit account identifier, held as four 64-bit words in little-endian
/// order (word 0 covers the lowest-addressed eight bytes).
#[derive(Clone, Copy, PartialEq, Eq, Structural, Debug)]
pub struct AccountId {
    pub w0: u64,
    pub w1: u64,
    pub w2: u64,
    pub w3: u64,
}

impl AccountId {
    /// The all-zero account, used as the default delegatee of an account
    /// that has never delegated.
    pub open spec fn zero_spec() -> AccountId {
        AccountId { w0: 0, w1: 0, w2: 0, w3: 0 }
    }

    pub fn zero() -> (r: AccountId)
        ensures
            r == AccountId::zero_spec(),
    {
        AccountId { w0: 0, w1: 0, w2: 0, w3: 0 }
    }
}

/// A 256-bit proposal identifier: the content hash of a proposal, held as
/// four 64-bit words in little-endian order.
#[derive(Clone, Copy, PartialEq, Eq, Structural, Debug)]
pub struct ProposalId {
    pub w0: u64,
    pub w1: u64,
    pub w2: u64,
    pub w3: u64,
}

/// The action a proposal carries: the call to perform if the proposal
/// succeeds.
#[derive(Debug, PartialEq, Eq)]
pub struct Transaction {
    /// The account to be called.
    pub callee: AccountId,
    /// The selector of the method to call on the callee.
    pub selector: u32,
    /// The raw call payload.
    pub input: Vec<u8>,
    /// The balance transferred along with the call.
    pub transferred_value: u128,
    /// The gas limit of the call.
    pub gas_limit: u64,
}

/// The mathematical value of a [`Transaction`].
pub struct TransactionV {
    pub callee: AccountId,
    pub selector: u32,
    pub input: Seq<u8>,
    pub transferred_value: u128,
    pub gas_limit: u64,
}

impl View for Transaction {
    type V = TransactionV;

    open spec fn view(&self) -> TransactionV {
        TransactionV {
            callee: self.callee,
            selector: self.selector,
            input: self.input@,
            transferred_value: self.transferred_value,
            gas_limit: self.gas_limit,
        }
    }
}

/// The three ways to vote on a proposal.
#[derive(Clone, Copy, PartialEq, Eq, Structural, Debug)]
pub enum VoteType {
    Against,
    For,
    Abstain,
}

/// The lifecycle states of a proposal. `Queued` and `Expired` are reserved
/// and never produced by the engine.
#[derive(Clone, Copy, PartialEq, Eq, Structural, Debug)]
pub enum ProposalState {
    Pending,
    Active,
    Canceled,
    Defeated,
    Succeeded,
    Queued,
    Expired,
    Executed,
}

/// The error kinds of the governance operations.
#[derive(Clone, Copy, PartialEq, Eq, Structural, Debug)]
pub enum GovernorError {
    InsufficientVotingPower,
    ProposalAlreadyExists,
    ProposalDoesNotExist,
    NotOpenForVoting,
    HasAlreadyVoted,
    VoteHasNotSucceeded,
    NotOwner,
    InsufficientAmount,
    AlreadyOwner,
    MintFailed,
    AddResourceFailed,
}

/// The error code reported by the external membership ledger.
#[derive(Clone, Copy, PartialEq, Eq, Structural, Debug)]
pub enum RmrkErrorCode {
    Failed,
}

/// An error of the external membership ledger.
#[derive(Clone, Copy, PartialEq, Eq, Structural, Debug)]
pub enum RmrkError {
    ErrorCode(RmrkErrorCode),
}

impl From<RmrkErrorCode> for RmrkError {
    fn from(error_code: RmrkErrorCode) -> (r: Self) {
        RmrkError::ErrorCode(error_code)
    }
}

impl vstd::std_specs::convert::FromSpecImpl<RmrkErrorCode> for RmrkError {
    open spec fn obeys_from_spec() -> bool {
        true
    }

    open spec fn from_spec(t: RmrkErrorCode) -> RmrkError {
        RmrkError::ErrorCode(t)
    }
}

impl RmrkErrorCode {
    /// Decodes the status code returned by the membership ledger: 0 is
    /// success and 1 is failure. Other codes are not produced by the ledger.
    pub fn from_status_code(status_code: u32) -> (r: Result<(), RmrkErrorCode>)
        requires
            status_code <= 1,
        ensures
            r == if status_code == 0 {
                Result::<(), RmrkErrorCode>::Ok(())
            } else {
                Result::<(), RmrkErrorCode>::Err(RmrkErrorCode::Failed)
            },
    {
        match status_code {
            0 => Ok(()),
            _ => Err(RmrkErrorCode::Failed),
        }
    }
}

/// The error code of the membership-collection bootstrap.
#[derive(Clone, Copy, PartialEq, Eq, Structural, Debug)]
pub enum RCErrorCode {
    Failed,
    CollectionNotCreated,
    CollectionAlreadyCreated,
}

/// An error of the membership-collection bootstrap.
#[derive(Clone, Copy, PartialEq, Eq, Structural, Debug)]
pub enum RCError {
    ErrorCode(RCErrorCode),
}

/// The immutable window and the two terminal flags of a proposal.
/// `executed` and `canceled` start false and are each set at most once,
/// monotonically, and never reset.
#[derive(Clone, Copy, PartialEq, Eq, Structural, Debug)]
pub struct ProposalCore {
    pub vote_start: u64,
    pub vote_end: u64,
    pub executed: bool,
    pub canceled: bool,
}

/// The per-proposal tally: one counter per vote kind and the accounts that
/// have already voted.
#[derive(Debug)]
pub struct ProposalVote {
    pub votes_against: u32,
    pub votes_for: u32,
    pub votes_abstain: u32,
    pub has_voted: Vec<AccountId>,
}

/// The mathematical value of a [`ProposalVote`].
pub struct ProposalVoteV {
    pub votes_against: u32,
    pub votes_for: u32,
    pub votes_abstain: u32,
    pub has_voted: Seq<AccountId>,
}

impl View for ProposalVote {
    type V = ProposalVoteV;

    open spec fn view(&self) -> ProposalVoteV {
        ProposalVoteV {
            votes_against: self.votes_against,
            votes_for: self.votes_for,
            votes_abstain: self.votes_abstain,
            has_voted: self.has_voted@,
        }
    }
}

/// One delegation event: at `block`, `delegator` assigned its voting power
/// to `delegatee`.
#[derive(Clone, Copy, PartialEq, Eq, Structural, Debug)]
pub struct DelegationRecord {
    pub block: u32,
    pub delegator: AccountId,
    pub delegatee: AccountId,
}

/// One member of the pool: the account, its membership credential and the
/// credential's evolution level.
#[derive(Clone, Copy, PartialEq, Eq, Structural, Debug)]
pub struct OwnerRecord {
    pub account: AccountId,
    pub nft: u32,
    pub lvl: u32,
}

} // verus!
