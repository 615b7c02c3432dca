//! The delegation ledger: an append-only log of delegation events, ordered
//! by insertion with non-decreasing block numbers. An account's voting power
//! at a checkpoint is the number of distinct delegators whose most recent
//! delegation at or before that checkpoint names the account; delegations
//! recorded after the checkpoint are invisible to it.

use vstd::prelude::*;

use vstd::seq_lib::lemma_seq_contains_after_push;
use vstd::seq_lib::seq_to_set_is_finite;
use vstd::set_lib::lemma_len_subset;

use crate::types::{AccountId, DelegationRecord};

verus! {

/// The delegatee named by the last record of `recs` whose delegator is `d`
/// and whose block does not exceed `checkpoint`, if any.
pub open spec fn active_delegate(
    recs: Seq<DelegationRecord>,
    d: AccountId,
    checkpoint: u32,
) -> Option<AccountId>
    decreases recs.len(),
{
    if recs.len() == 0 {
        None
    } else if recs.last().delegator == d && recs.last().block <= checkpoint {
        Some(recs.last().delegatee)
    } else {
        active_delegate(recs.drop_last(), d, checkpoint)
    }
}

/// The delegators whose active delegation at `checkpoint` names `a`.
pub open spec fn active_delegators(
    recs: Seq<DelegationRecord>,
    a: AccountId,
    checkpoint: u32,
) -> Set<AccountId> {
    Set::new(|d: AccountId| active_delegate(recs, d, checkpoint) == Some(a))
}

/// The voting power of `a` at `checkpoint`: the number of distinct
/// delegators whose active delegation at `checkpoint` names `a`.
pub open spec fn power_of(recs: Seq<DelegationRecord>, a: AccountId, checkpoint: u32) -> nat {
    active_delegators(recs, a, checkpoint).len()
}

/// The delegatee of `d`'s most recent delegation, or the zero account if
/// `d` has never delegated.
pub open spec fn current_delegate_spec(recs: Seq<DelegationRecord>, d: AccountId) -> AccountId {
    match active_delegate(recs, d, u32::MAX) {
        Some(a) => a,
        None => AccountId::zero_spec(),
    }
}

/// Whether `recs[j]` is a record of delegator `d` visible at `checkpoint`.
pub open spec fn matches_at(
    recs: Seq<DelegationRecord>,
    d: AccountId,
    checkpoint: u32,
    j: int,
) -> bool {
    0 <= j < recs.len() && recs[j].delegator == d && recs[j].block <= checkpoint
}

/// Every delegator that appears in the log.
pub open spec fn delegators_of(recs: Seq<DelegationRecord>) -> Set<AccountId> {
    recs.map_values(|r: DelegationRecord| r.delegator).to_set()
}

/// If `d`'s last visible record is at index `j`, then `d`'s active delegate
/// is that record's delegatee.
pub proof fn lemma_active_at_last_match(
    recs: Seq<DelegationRecord>,
    d: AccountId,
    checkpoint: u32,
    j: int,
)
    requires
        matches_at(recs, d, checkpoint, j),
        forall|k: int| j < k < recs.len() ==> !matches_at(recs, d, checkpoint, k),
    ensures
        active_delegate(recs, d, checkpoint) == Some(recs[j].delegatee),
    decreases recs.len(),
{
    if j == recs.len() - 1 {
    } else {
        assert(!matches_at(recs, d, checkpoint, recs.len() - 1));
        assert forall|k: int| j < k < recs.drop_last().len() implies !matches_at(
            recs.drop_last(),
            d,
            checkpoint,
            k,
        ) by {
            assert(!matches_at(recs, d, checkpoint, k));
        }
        lemma_active_at_last_match(recs.drop_last(), d, checkpoint, j);
    }
}

/// If `d` has no visible record, then `d` has no active delegate.
pub proof fn lemma_active_none(recs: Seq<DelegationRecord>, d: AccountId, checkpoint: u32)
    requires
        forall|j: int| !matches_at(recs, d, checkpoint, j),
    ensures
        active_delegate(recs, d, checkpoint) is None,
    decreases recs.len(),
{
    if recs.len() > 0 {
        assert(!matches_at(recs, d, checkpoint, recs.len() - 1));
        assert forall|j: int| !matches_at(recs.drop_last(), d, checkpoint, j) by {
            assert(!matches_at(recs, d, checkpoint, j));
        }
        lemma_active_none(recs.drop_last(), d, checkpoint);
    }
}

/// An active delegation implies a visible record.
pub proof fn lemma_active_some_implies_match(
    recs: Seq<DelegationRecord>,
    d: AccountId,
    checkpoint: u32,
)
    requires
        active_delegate(recs, d, checkpoint) is Some,
    ensures
        exists|j: int| matches_at(recs, d, checkpoint, j),
    decreases recs.len(),
{
    if recs.len() == 0 {
    } else if recs.last().delegator == d && recs.last().block <= checkpoint {
        assert(matches_at(recs, d, checkpoint, recs.len() - 1));
    } else {
        lemma_active_some_implies_match(recs.drop_last(), d, checkpoint);
        let j = choose|j: int| matches_at(recs.drop_last(), d, checkpoint, j);
        assert(matches_at(recs, d, checkpoint, j));
    }
}

/// The accounts delegating to `a` all appear in the log as delegators, so
/// the power of `a` never exceeds the log's length.
pub proof fn lemma_power_bounded(recs: Seq<DelegationRecord>, a: AccountId, checkpoint: u32)
    ensures
        active_delegators(recs, a, checkpoint).finite(),
        power_of(recs, a, checkpoint) <= recs.len(),
{
    let dels = recs.map_values(|r: DelegationRecord| r.delegator);
    assert forall|d: AccountId| active_delegators(recs, a, checkpoint).contains(d)
        implies delegators_of(recs).contains(d) by {
        lemma_active_some_implies_match(recs, d, checkpoint);
        let j = choose|j: int| matches_at(recs, d, checkpoint, j);
        assert(dels[j] == d);
        assert(dels.contains(d));
    }
    seq_to_set_is_finite(dels);
    lemma_len_subset(active_delegators(recs, a, checkpoint), delegators_of(recs));
    dels.lemma_cardinality_of_set();
}

/// Appending records that lie after a checkpoint changes no delegation
/// visible at that checkpoint: historical queries are unaffected by future
/// growth of the log.
pub proof fn lemma_snapshot_stability(
    recs: Seq<DelegationRecord>,
    ext: Seq<DelegationRecord>,
    a: AccountId,
    checkpoint: u32,
)
    requires
        forall|j: int| 0 <= j < ext.len() ==> ext[j].block > checkpoint,
    ensures
        forall|d: AccountId|
            active_delegate(recs + ext, d, checkpoint) == active_delegate(recs, d, checkpoint),
        power_of(recs + ext, a, checkpoint) == power_of(recs, a, checkpoint),
    decreases ext.len(),
{
    if ext.len() == 0 {
        assert(recs + ext =~= recs);
    } else {
        let shorter = ext.drop_last();
        assert forall|j: int| 0 <= j < shorter.len() implies shorter[j].block > checkpoint by {
            assert(ext[j].block > checkpoint);
        }
        lemma_snapshot_stability(recs, shorter, a, checkpoint);
        let whole = recs + ext;
        assert(whole.last() == ext.last());
        assert(whole.last().block > checkpoint);
        assert(whole.drop_last() =~= recs + shorter);
        assert forall|d: AccountId|
            active_delegate(whole, d, checkpoint) == active_delegate(recs, d, checkpoint) by {
            assert(active_delegate(whole, d, checkpoint) == active_delegate(
                recs + shorter,
                d,
                checkpoint,
            ));
        }
        assert(active_delegators(whole, a, checkpoint) =~= active_delegators(
            recs,
            a,
            checkpoint,
        ));
    }
}

/// A delegator is counted for at most one delegatee at any checkpoint.
pub proof fn lemma_single_delegatee(
    recs: Seq<DelegationRecord>,
    a: AccountId,
    b: AccountId,
    checkpoint: u32,
)
    requires
        a != b,
    ensures
        active_delegators(recs, a, checkpoint).disjoint(active_delegators(recs, b, checkpoint)),
{
}

/// A later delegation supersedes an earlier one: once the log's last record
/// reassigns `d` to `b`, `d` counts for `b` and for no other account, at
/// every checkpoint from that record's block on.
pub proof fn lemma_redelegation_supersedes(
    recs: Seq<DelegationRecord>,
    d: AccountId,
    b: AccountId,
    checkpoint: u32,
)
    requires
        recs.len() > 0,
        recs.last().delegator == d,
        recs.last().delegatee == b,
        recs.last().block <= checkpoint,
    ensures
        active_delegate(recs, d, checkpoint) == Some(b),
        active_delegators(recs, b, checkpoint).contains(d),
        forall|x: AccountId| x != b ==> !active_delegators(recs, x, checkpoint).contains(d),
{
}

/// Answers whether `x` occurs in `v`.
pub fn contains_account(v: &Vec<AccountId>, x: AccountId) -> (r: bool)
    ensures
        r == v@.contains(x),
{
    let mut i: usize = 0;
    while i < v.len()
        invariant
            i <= v@.len(),
            forall|k: int| 0 <= k < i ==> v@[k] != x,
        decreases v@.len() - i,
    {
        if v[i] == x {
            return true;
        }
        i = i + 1;
    }
    false
}

/// Collects the distinct delegators whose active delegation at `checkpoint`
/// names `account`, scanning the log from the most recent record backwards.
pub fn collect_active_delegators(
    recs: &Vec<DelegationRecord>,
    account: AccountId,
    checkpoint: u32,
) -> (r: Vec<AccountId>)
    ensures
        r@.no_duplicates(),
        r@.to_set() == active_delegators(recs@, account, checkpoint),
        r@.len() == power_of(recs@, account, checkpoint),
        forall|k: int|
            0 <= k < r@.len() ==> active_delegate(recs@, r@[k], checkpoint) == Some(account),
{
    let ghost grecs = recs@;
    let mut seen: Vec<AccountId> = Vec::new();
    let mut found: Vec<AccountId> = Vec::new();
    let mut i: usize = recs.len();
    while i > 0
        invariant
            i <= grecs.len(),
            recs@ == grecs,
            seen@.no_duplicates(),
            found@.no_duplicates(),
            forall|d: AccountId|
                #[trigger] seen@.contains(d) <==> exists|j: int|
                    i <= j && matches_at(grecs, d, checkpoint, j),
            forall|d: AccountId|
                #[trigger] found@.contains(d) <==> (seen@.contains(d) && active_delegate(
                    grecs,
                    d,
                    checkpoint,
                ) == Some(account)),
        decreases i,
    {
        i = i - 1;
        let rec = recs[i];
        if rec.block <= checkpoint {
            if !contains_account(&seen, rec.delegator) {
                proof {
                    assert forall|k: int| (i as int) < k < grecs.len() implies !matches_at(
                        grecs,
                        rec.delegator,
                        checkpoint,
                        k,
                    ) by {
                        if matches_at(grecs, rec.delegator, checkpoint, k) {
                            assert(seen@.contains(rec.delegator));
                        }
                    }
                    assert(matches_at(grecs, rec.delegator, checkpoint, i as int));
                    lemma_active_at_last_match(grecs, rec.delegator, checkpoint, i as int);
                    assert(!seen@.contains(rec.delegator));
                }
                let ghost old_seen = seen@;
                let ghost old_found = found@;
                seen.push(rec.delegator);
                proof {
                    assert forall|x: AccountId| #[trigger] seen@.contains(x) implies (old_seen.contains(x)
                        || x == rec.delegator) by {
                        lemma_seq_contains_after_push(old_seen, rec.delegator, x);
                    }
                    assert forall|x: AccountId| (old_seen.contains(x) || x == rec.delegator)
                        implies #[trigger] seen@.contains(x) by {
                        lemma_seq_contains_after_push(old_seen, rec.delegator, x);
                    }
                    assert(seen@.no_duplicates()) by {
                        assert forall|p: int, q: int|
                            0 <= p < seen@.len() && 0 <= q < seen@.len() && p != q implies seen@[p]
                            != seen@[q] by {
                            if p < old_seen.len() && q < old_seen.len() {
                            } else if q == old_seen.len() {
                                assert(old_seen.contains(old_seen[p])) by {
                                    assert(old_seen[p] == old_seen[p]);
                                }
                            } else {
                                assert(old_seen.contains(old_seen[q]));
                            }
                        }
                    }
                }
                if rec.delegatee == account {
                    found.push(rec.delegator);
                    proof {
                        assert forall|x: AccountId| #[trigger] found@.contains(x) implies (
                        old_found.contains(x) || x == rec.delegator) by {
                            lemma_seq_contains_after_push(old_found, rec.delegator, x);
                        }
                        assert forall|x: AccountId| (old_found.contains(x) || x == rec.delegator)
                            implies #[trigger] found@.contains(x) by {
                            lemma_seq_contains_after_push(old_found, rec.delegator, x);
                        }
                        assert(found@.no_duplicates()) by {
                            assert forall|p: int, q: int|
                                0 <= p < found@.len() && 0 <= q < found@.len() && p != q
                                implies found@[p] != found@[q] by {
                                if p < old_found.len() && q < old_found.len() {
                                } else if q == old_found.len() {
                                    assert(old_found.contains(old_found[p]));
                                } else {
                                    assert(old_found.contains(old_found[q]));
                                }
                            }
                        }
                    }
                }
            } else {
                proof {
                    assert forall|d: AccountId|
                        (exists|j: int| i <= j && matches_at(grecs, d, checkpoint, j))
                        implies #[trigger] seen@.contains(d) by {
                        let j = choose|j: int| i <= j && matches_at(grecs, d, checkpoint, j);
                        if j == i {
                            assert(d == rec.delegator);
                        } else {
                            assert(i + 1 <= j && matches_at(grecs, d, checkpoint, j));
                        }
                    }
                }
            }
        } else {
            proof {
                assert forall|d: AccountId|
                    (exists|j: int| i <= j && matches_at(grecs, d, checkpoint, j))
                    implies #[trigger] seen@.contains(d) by {
                    let j = choose|j: int| i <= j && matches_at(grecs, d, checkpoint, j);
                    assert(j != i);
                    assert(i + 1 <= j && matches_at(grecs, d, checkpoint, j));
                }
            }
        }
    }
    proof {
        assert forall|d: AccountId| active_delegators(grecs, account, checkpoint).contains(d)
            implies found@.contains(d) by {
            lemma_active_some_implies_match(grecs, d, checkpoint);
            let j = choose|j: int| matches_at(grecs, d, checkpoint, j);
            assert(0 <= j && matches_at(grecs, d, checkpoint, j));
            assert(seen@.contains(d));
        }
        assert forall|d: AccountId| found@.contains(d) implies active_delegators(
            grecs,
            account,
            checkpoint,
        ).contains(d) by {}
        assert(found@.to_set() =~= active_delegators(grecs, account, checkpoint));
        found@.unique_seq_to_set();
        assert forall|k: int| 0 <= k < found@.len() implies active_delegate(
            grecs,
            found@[k],
            checkpoint,
        ) == Some(account) by {
            assert(found@.contains(found@[k]));
        }
    }
    found
}

/// The append-only log of delegation events.
pub struct DelegationLedger {
    records: Vec<DelegationRecord>,
}

impl View for DelegationLedger {
    type V = Seq<DelegationRecord>;

    closed spec fn view(&self) -> Seq<DelegationRecord> {
        self.records@
    }
}

impl DelegationLedger {
    /// Well-formed: bounded length and blocks non-decreasing in insertion
    /// order.
    pub open spec fn wf(self) -> bool {
        &&& self@.len() <= u32::MAX
        &&& forall|i: int, j: int| 0 <= i <= j < self@.len() ==> self@[i].block <= self@[j].block
    }

    pub fn new() -> (r: DelegationLedger)
        ensures
            r@ == Seq::<DelegationRecord>::empty(),
            r.wf(),
    {
        DelegationLedger { records: Vec::new() }
    }

    pub fn len(&self) -> (r: usize)
        ensures
            r == self@.len(),
    {
        self.records.len()
    }

    /// Appends a delegation event. The log is append-only: no record is
    /// ever removed or changed, and blocks never decrease.
    pub fn record_delegation(&mut self, delegator: AccountId, delegatee: AccountId, at_block: u32)
        requires
            old(self).wf(),
            old(self)@.len() < u32::MAX,
            old(self)@.len() > 0 ==> old(self)@.last().block <= at_block,
        ensures
            final(self).wf(),
            final(self)@ == old(self)@.push(
                DelegationRecord { block: at_block, delegator, delegatee },
            ),
    {
        let ghost before = self@;
        self.records.push(DelegationRecord { block: at_block, delegator, delegatee });
        proof {
            assert forall|i: int, j: int| 0 <= i <= j < self@.len() implies self@[i].block
                <= self@[j].block by {
                if j < before.len() {
                } else if i < before.len() {
                    assert(before[i].block <= before[before.len() - 1].block);
                }
            }
        }
    }

    /// The delegatee of `delegator`'s most recent delegation, or the zero
    /// account if the delegator has never delegated.
    pub fn current_delegate(&self, delegator: AccountId) -> (r: AccountId)
        ensures
            r == current_delegate_spec(self@, delegator),
    {
        let mut i: usize = self.records.len();
        while i > 0
            invariant
                i <= self@.len(),
                forall|k: int| i <= k < self@.len() ==> self@[k].delegator != delegator,
            decreases i,
        {
            i = i - 1;
            if self.records[i].delegator == delegator {
                proof {
                    assert(matches_at(self@, delegator, u32::MAX, i as int));
                    assert forall|k: int| (i as int) < k < self@.len() implies !matches_at(
                        self@,
                        delegator,
                        u32::MAX,
                        k,
                    ) by {}
                    lemma_active_at_last_match(self@, delegator, u32::MAX, i as int);
                }
                return self.records[i].delegatee;
            }
        }
        proof {
            assert forall|j: int| !matches_at(self@, delegator, u32::MAX, j) by {}
            lemma_active_none(self@, delegator, u32::MAX);
        }
        AccountId::zero()
    }

    /// The distinct delegators whose active delegation at `checkpoint`
    /// names `account`.
    pub fn active_delegator_list(&self, account: AccountId, checkpoint: u32) -> (r: Vec<AccountId>)
        ensures
            r@.no_duplicates(),
            r@.to_set() == active_delegators(self@, account, checkpoint),
            r@.len() == power_of(self@, account, checkpoint),
            forall|k: int|
                0 <= k < r@.len() ==> active_delegate(self@, r@[k], checkpoint) == Some(account),
    {
        collect_active_delegators(&self.records, account, checkpoint)
    }

    /// The voting power of `account` at `checkpoint`.
    pub fn votes_at(&self, account: AccountId, checkpoint: u32) -> (r: u32)
        requires
            self.wf(),
        ensures
            r as nat == power_of(self@, account, checkpoint),
    {
        let list = self.active_delegator_list(account, checkpoint);
        proof {
            lemma_power_bounded(self@, account, checkpoint);
        }
        list.len() as u32
    }
}

} // verus!
