use vstd::prelude::*;
use crate::types::{AccountId, BlockNumber};

verus! {

/// Where a proposal stands.
#[derive(PartialEq, Eq, Structural, Clone, Copy, Debug)]
pub enum ProposalStatus {
    /// Votes are still being collected.
    Initiated,
    /// Enough relayers voted for it.
    Approved,
    /// Too many relayers voted against it for it to pass.
    Rejected,
}

/// The votes cast on one proposal.
#[derive(PartialEq, Eq, Clone, Debug)]
pub struct ProposalVotes {
    /// The relayers that voted for the proposal, in the order they voted.
    pub votes_for: Vec<AccountId>,
    /// The relayers that voted against the proposal, in the order they voted.
    pub votes_against: Vec<AccountId>,
    /// Where the proposal stands.
    pub status: ProposalStatus,
    /// The block from which on no more votes are taken.
    pub expiry: BlockNumber,
}

/// The model of [`ProposalVotes`].
pub struct ProposalVotesView {
    pub votes_for: Seq<AccountId>,
    pub votes_against: Seq<AccountId>,
    pub status: ProposalStatus,
    pub expiry: BlockNumber,
}

impl View for ProposalVotes {
    type V = ProposalVotesView;

    open spec fn view(&self) -> ProposalVotesView {
        ProposalVotesView {
            votes_for: self.votes_for@,
            votes_against: self.votes_against@,
            status: self.status,
            expiry: self.expiry,
        }
    }
}

impl ProposalVotesView {
    /// The record of a proposal on which nobody has voted yet.
    pub open spec fn fresh(expiry: BlockNumber) -> ProposalVotesView {
        ProposalVotesView {
            votes_for: Seq::empty(),
            votes_against: Seq::empty(),
            status: ProposalStatus::Initiated,
            expiry,
        }
    }

    /// Whether `who` has voted on the proposal, either way.
    pub open spec fn voted(self, who: AccountId) -> bool {
        self.votes_for.contains(who) || self.votes_against.contains(who)
    }

    /// Whether the proposal has been approved or rejected.
    pub open spec fn complete(self) -> bool {
        self.status != ProposalStatus::Initiated
    }

    /// Whether the voting period is over at block `now`.
    pub open spec fn expired(self, now: BlockNumber) -> bool {
        self.expiry <= now
    }

    /// The status that the votes give, with `threshold` votes needed for approval and
    /// `total` relayers in all: approved once `threshold` relayers voted for it;
    /// rejected once so many voted against it that the rest cannot reach `threshold`
    /// (the votes against are counted as a `u32`).
    pub open spec fn tally(self, threshold: u32, total: u32) -> ProposalStatus {
        if self.votes_for.len() >= threshold {
            ProposalStatus::Approved
        } else if total >= threshold && (self.votes_against.len() as u32) + threshold > total {
            ProposalStatus::Rejected
        } else {
            ProposalStatus::Initiated
        }
    }

    /// The tally can be counted in 32-bit arithmetic: the number of votes against,
    /// taken as a `u32`, plus the threshold, where it is computed, fits in a `u32`.
    pub open spec fn tally_fits(self, threshold: u32, total: u32) -> bool {
        self.votes_for.len() >= threshold || total < threshold || (self.votes_against.len() as u32)
            + threshold <= u32::MAX
    }

    /// No relayer occurs twice among the votes of a proposal.
    pub open spec fn no_double_votes(self) -> bool {
        &&& self.votes_for.no_duplicates()
        &&& self.votes_against.no_duplicates()
        &&& forall|i: int, j: int|
            0 <= i < self.votes_for.len() && 0 <= j < self.votes_against.len()
                ==> self.votes_for[i] != self.votes_against[j]
    }
}

/// Whether `who` occurs in `v`.
pub fn contains_account(v: &Vec<AccountId>, who: AccountId) -> (r: bool)
    ensures
        r == v@.contains(who),
{
    let mut i: usize = 0;
    while i < v.len()
        invariant
            i <= v@.len(),
            forall|j: int| 0 <= j < i ==> v@[j] != who,
        decreases v@.len() - i,
    {
        if v[i] == who {
            assert(v@[i as int] == who);
            return true;
        }
        i = i + 1;
    }
    false
}

/// A copy of a list of accounts.
pub fn copy_accounts(v: &Vec<AccountId>) -> (r: Vec<AccountId>)
    ensures
        r@ == v@,
{
    let mut r: Vec<AccountId> = Vec::new();
    let mut i: usize = 0;
    while i < v.len()
        invariant
            i <= v@.len(),
            r@ == v@.subrange(0, i as int),
        decreases v@.len() - i,
    {
        r.push(v[i]);
        i = i + 1;
        assert(r@ =~= v@.subrange(0, i as int));
    }
    assert(r@ =~= v@);
    r
}

impl ProposalVotes {
    /// A copy of the record.
    pub fn duplicate(&self) -> (r: ProposalVotes)
        ensures
            r@ == self@,
    {
        ProposalVotes {
            votes_for: copy_accounts(&self.votes_for),
            votes_against: copy_accounts(&self.votes_against),
            status: self.status,
            expiry: self.expiry,
        }
    }

    /// Counts the votes: with `threshold` votes needed for approval and `total` relayers
    /// in all, marks the proposal approved or rejected where the votes decide it, and
    /// returns the status that the count gives.
    pub fn try_to_complete(&mut self, threshold: u32, total: u32) -> (r: ProposalStatus)
        requires
            old(self)@.tally_fits(threshold, total),
        ensures
            r == old(self)@.tally(threshold, total),
            final(self).votes_for@ == old(self).votes_for@,
            final(self).votes_against@ == old(self).votes_against@,
            final(self).expiry == old(self).expiry,
            final(self).status == if r == ProposalStatus::Initiated {
                old(self).status
            } else {
                r
            },
    {
        if self.votes_for.len() >= threshold as usize {
            self.status = ProposalStatus::Approved;
            ProposalStatus::Approved
        } else if total >= threshold && self.votes_against.len() as u32 + threshold > total {
            self.status = ProposalStatus::Rejected;
            ProposalStatus::Rejected
        } else {
            ProposalStatus::Initiated
        }
    }

    /// Whether the proposal has been approved or rejected.
    pub fn is_complete(&self) -> (r: bool)
        ensures
            r == self@.complete(),
    {
        self.status != ProposalStatus::Initiated
    }

    /// Whether `who` has voted on the proposal, either way.
    pub fn has_voted(&self, who: &AccountId) -> (r: bool)
        ensures
            r == self@.voted(*who),
    {
        contains_account(&self.votes_for, *who) || contains_account(&self.votes_against, *who)
    }

    /// Whether the voting period is over at block `now`.
    pub fn is_expired(&self, now: BlockNumber) -> (r: bool)
        ensures
            r == self@.expired(now),
    {
        self.expiry <= now
    }
}

impl Default for ProposalVotes {
    /// No votes yet, status `Initiated`, expiry at block zero.
    fn default() -> (r: ProposalVotes)
        ensures
            r@ == ProposalVotesView::fresh(0),
    {
        ProposalVotes {
            votes_for: Vec::new(),
            votes_against: Vec::new(),
            status: ProposalStatus::Initiated,
            expiry: 0,
        }
    }
}

} // verus!
