use vstd::prelude::*;
use sp_core::U256;
use crate::bridge::{BridgeEventView, BridgeState, Resolution, bridge_err};
use crate::erc721::{Erc721State, TokenId};
use crate::types::{
    AccountId, BlockNumber, BridgeError, ChainId, DepositNonce, DispatchError, ResourceId,
    resource_id_len, resource_id_spec,
};
use crate::u256::u256_max;
use crate::votes::{ProposalStatus, ProposalVotesView};
use crate::example::ExampleState;
use crate::types::Origin;

verus! {

/// A call that changes the bridge's storage, with byte strings as sequences.
pub enum BridgeCall {
    SetRelayerThreshold(u32),
    RegisterResource(ResourceId, Seq<u8>),
    UnregisterResource(ResourceId),
    Whitelist(ChainId),
    RegisterRelayer(AccountId),
    UnregisterRelayer(AccountId),
    Vote(AccountId, DepositNonce, ChainId, Seq<u8>, bool, BlockNumber),
    Resolve(DepositNonce, ChainId, Seq<u8>, BlockNumber),
    Finalize(ChainId, DepositNonce, bool),
    TransferFungible(ChainId, ResourceId, nat, Seq<u8>),
    TransferNonFungible(ChainId, ResourceId, Seq<u8>, Seq<u8>, Seq<u8>),
    TransferGeneric(ChainId, ResourceId, Seq<u8>),
}

impl BridgeState {
    /// The storage after `call`, as the functions of the bridge leave it.
    pub open spec fn apply(self, call: BridgeCall) -> BridgeState {
        match call {
            BridgeCall::SetRelayerThreshold(t) => self.set_relayer_threshold_step(t).0,
            BridgeCall::RegisterResource(id, m) => BridgeState {
                resources: self.resources.insert(id, m),
                ..self
            },
            BridgeCall::UnregisterResource(id) => BridgeState {
                resources: self.resources.remove(id),
                ..self
            },
            BridgeCall::Whitelist(id) => self.whitelist_step(id).0,
            BridgeCall::RegisterRelayer(r) => self.register_relayer_step(r).0,
            BridgeCall::UnregisterRelayer(r) => self.unregister_relayer_step(r).0,
            BridgeCall::Vote(who, nonce, src, prop, in_favour, now) => self.vote_step(
                who,
                nonce,
                src,
                prop,
                in_favour,
                now,
            ).0,
            BridgeCall::Resolve(nonce, src, prop, now) => self.resolve_step(nonce, src, prop, now).0,
            BridgeCall::Finalize(src, nonce, succeeded) => if succeeded {
                self.emit(BridgeEventView::ProposalSucceeded(src, nonce))
            } else {
                self
            },
            BridgeCall::TransferFungible(dest, r, amount, to) => self.transfer_step(
                dest,
                |n: u64| BridgeEventView::FungibleTransfer(dest, n, r, amount, to),
            ).0,
            BridgeCall::TransferNonFungible(dest, r, id, to, md) => self.transfer_step(
                dest,
                |n: u64| BridgeEventView::NonFungibleTransfer(dest, n, r, id, to, md),
            ).0,
            BridgeCall::TransferGeneric(dest, r, md) => self.transfer_step(
                dest,
                |n: u64| BridgeEventView::GenericTransfer(dest, n, r, md),
            ).0,
        }
    }

    /// The inputs on which the functions of the bridge accept `call`.
    pub open spec fn call_fits(self, call: BridgeCall) -> bool {
        match call {
            BridgeCall::RegisterRelayer(r) => !self.relayers.contains(r) ==> self.relayer_count
                < u32::MAX,
            BridgeCall::Vote(who, nonce, src, prop, in_favour, now) => self.vote_fits(
                who,
                nonce,
                src,
                prop,
                in_favour,
                now,
            ),
            BridgeCall::Resolve(nonce, src, prop, now) => self.resolve_fits(nonce, src, prop, now),
            BridgeCall::TransferFungible(dest, _, _, _) => self.transfer_fits(dest),
            BridgeCall::TransferNonFungible(dest, _, _, _, _) => self.transfer_fits(dest),
            BridgeCall::TransferGeneric(dest, _, _) => self.transfer_fits(dest),
            _ => true,
        }
    }
}

proof fn lemma_vote_keeps_no_double_votes(
    s: BridgeState,
    who: AccountId,
    nonce: DepositNonce,
    src: ChainId,
    prop: Seq<u8>,
    in_favour: bool,
    now: BlockNumber,
)
    requires
        s.inv(),
    ensures
        s.commit_vote_step(who, nonce, src, prop, in_favour, now).0.inv(),
{
    let key = (src, nonce, prop);
    let rec = s.record_or_fresh(key, now);
    let t = s.commit_vote_step(who, nonce, src, prop, in_favour, now).0;
    if !rec.complete() && !rec.expired(now) && !rec.voted(who) {
        if s.votes.contains_key(key) {
            assert(rec.no_double_votes());
        }
        assert(forall|i: int| 0 <= i < rec.votes_for.len() ==> rec.votes_for[i] != who);
        assert(forall|i: int| 0 <= i < rec.votes_against.len() ==> rec.votes_against[i] != who);
        assert(t.votes[key].no_double_votes());
        assert forall|k| #[trigger] t.votes.contains_key(k) implies t.votes[k].no_double_votes() by {
            if k != key {
                assert(s.votes.contains_key(k));
            }
        }
    }
}

proof fn lemma_resolve_keeps_inv(s: BridgeState, nonce: DepositNonce, src: ChainId, prop: Seq<u8>, now: BlockNumber)
    requires
        s.inv(),
    ensures
        s.resolve_step(nonce, src, prop, now).0.inv(),
{
    let key = (src, nonce, prop);
    let t = s.resolve_step(nonce, src, prop, now).0;
    if s.votes.contains_key(key) {
        assert(s.votes[key].no_double_votes());
        assert forall|k| #[trigger] t.votes.contains_key(k) implies t.votes[k].no_double_votes() by {
            if k != key {
                assert(s.votes.contains_key(k));
            }
        }
    }
}

/// Every call keeps the bridge's invariant: the relayer count stays the number of
/// relayers, and no relayer ever occurs twice among the votes of a proposal.
pub proof fn lemma_call_keeps_inv(s: BridgeState, call: BridgeCall)
    requires
        s.inv(),
        s.call_fits(call),
    ensures
        s.apply(call).inv(),
{
    match call {
        BridgeCall::RegisterRelayer(r) => {
            if !s.relayers.contains(r) {
                assert(s.relayers.insert(r).len() == s.relayers.len() + 1);
            }
        },
        BridgeCall::UnregisterRelayer(r) => {
            if s.relayers.contains(r) {
                assert(s.relayers.remove(r).len() == s.relayers.len() - 1);
            }
        },
        BridgeCall::Vote(who, nonce, src, prop, in_favour, now) => {
            lemma_vote_keeps_no_double_votes(s, who, nonce, src, prop, in_favour, now);
            let t = s.commit_vote_step(who, nonce, src, prop, in_favour, now).0;
            lemma_resolve_keeps_inv(t, nonce, src, prop, now);
        },
        BridgeCall::Resolve(nonce, src, prop, now) => {
            lemma_resolve_keeps_inv(s, nonce, src, prop, now);
        },
        _ => {},
    }
}

/// No call takes a chain off the whitelist or lowers its nonce, changes the
/// configuration, or drops a reported event.
pub proof fn lemma_call_is_monotone(s: BridgeState, call: BridgeCall, id: ChainId)
    requires
        s.call_fits(call),
    ensures
        s.apply(call).config == s.config,
        s.apply(call).events.len() >= s.events.len(),
        s.apply(call).events.subrange(0, s.events.len() as int) == s.events,
        s.chains.contains_key(id) ==> s.apply(call).chains.contains_key(id),
        s.chains.contains_key(id) ==> s.apply(call).chains[id] >= s.chains[id],
{
    let t = s.apply(call);
    match call {
        BridgeCall::Vote(who, nonce, src, prop, in_favour, now) => {
            let u = s.commit_vote_step(who, nonce, src, prop, in_favour, now).0;
            assert(u.events.subrange(0, s.events.len() as int) =~= s.events);
            assert(t.events.subrange(0, u.events.len() as int) =~= u.events);
            assert(t.events.subrange(0, s.events.len() as int) =~= s.events);
        },
        _ => {
            assert(t.events.subrange(0, s.events.len() as int) =~= s.events);
        },
    }
}

/// A registered resource can be looked up with its method until it is removed, and
/// removing a resource right after registering it restores the resources.
pub proof fn lemma_resource_register_unregister(s: BridgeState, id: ResourceId, method: Seq<u8>)
    ensures
        s.apply(BridgeCall::RegisterResource(id, method)).resources.contains_key(id),
        s.apply(BridgeCall::RegisterResource(id, method)).resources[id] == method,
        !s.resources.contains_key(id) ==> s.apply(BridgeCall::RegisterResource(id, method)).apply(
            BridgeCall::UnregisterResource(id),
        ).resources == s.resources,
{
    if !s.resources.contains_key(id) {
        assert(s.resources.insert(id, method).remove(id) =~= s.resources);
    }
}

/// Votes are never withdrawn: every call keeps each recorded proposal, with its votes
/// for and against as a prefix of the new ones and its expiry unchanged, and leaves an
/// approved or rejected proposal exactly as it was.
pub proof fn lemma_votes_only_grow(
    s: BridgeState,
    call: BridgeCall,
    k: (ChainId, DepositNonce, Seq<u8>),
)
    requires
        s.votes.contains_key(k),
    ensures
        s.apply(call).votes.contains_key(k),
        s.votes[k].votes_for.is_prefix_of(s.apply(call).votes[k].votes_for),
        s.votes[k].votes_against.is_prefix_of(s.apply(call).votes[k].votes_against),
        s.apply(call).votes[k].expiry == s.votes[k].expiry,
        s.apply(call).votes[k].status == s.votes[k].status || s.votes[k].status
            == ProposalStatus::Initiated,
        s.votes[k].complete() ==> s.apply(call).votes[k] == s.votes[k],
{
    let v = s.votes[k];
    assert(v.votes_for.is_prefix_of(v.votes_for));
    assert(v.votes_against.is_prefix_of(v.votes_against));
    match call {
        BridgeCall::Vote(who, nonce, src, prop, in_favour, now) => {
            let u = s.commit_vote_step(who, nonce, src, prop, in_favour, now).0;
            assert(u.votes.contains_key(k));
            assert(v.votes_for.is_prefix_of(u.votes[k].votes_for)) by {
                if k == (src, nonce, prop) && in_favour && u != s {
                    assert(u.votes[k].votes_for.subrange(0, v.votes_for.len() as int) =~= v.votes_for);
                }
            }
            assert(v.votes_against.is_prefix_of(u.votes[k].votes_against)) by {
                if k == (src, nonce, prop) && !in_favour && u != s {
                    assert(u.votes[k].votes_against.subrange(0, v.votes_against.len() as int)
                        =~= v.votes_against);
                }
            }
        },
        _ => {},
    }
}

/// The storage after `calls`, made one after the other.
pub open spec fn run(s: BridgeState, calls: Seq<BridgeCall>) -> BridgeState
    decreases calls.len(),
{
    if calls.len() == 0 {
        s
    } else {
        run(s, calls.drop_last()).apply(calls.last())
    }
}

/// Each of `calls` is accepted by the functions of the bridge, on the storage that the
/// calls before it leave.
pub open spec fn run_fits(s: BridgeState, calls: Seq<BridgeCall>) -> bool
    decreases calls.len(),
{
    if calls.len() == 0 {
        true
    } else {
        run_fits(s, calls.drop_last()) && run(s, calls.drop_last()).call_fits(calls.last())
    }
}

/// The nonce of a transfer event to chain `c`.
pub open spec fn transfer_nonce(e: BridgeEventView, c: ChainId) -> Option<DepositNonce> {
    match e {
        BridgeEventView::FungibleTransfer(d, n, _, _, _) => if d == c {
            Some(n)
        } else {
            None
        },
        BridgeEventView::NonFungibleTransfer(d, n, _, _, _, _) => if d == c {
            Some(n)
        } else {
            None
        },
        BridgeEventView::GenericTransfer(d, n, _, _) => if d == c {
            Some(n)
        } else {
            None
        },
        _ => None,
    }
}

/// The nonces of the transfers to chain `c` among `events`, in order.
pub open spec fn transfer_nonces(events: Seq<BridgeEventView>, c: ChainId) -> Seq<DepositNonce>
    decreases events.len(),
{
    if events.len() == 0 {
        Seq::empty()
    } else {
        let rest = transfer_nonces(events.drop_last(), c);
        match transfer_nonce(events.last(), c) {
            Some(n) => rest.push(n),
            None => rest,
        }
    }
}

/// The numbers `from + 1`, ..., `from + k`.
pub open spec fn nonces_after(from: DepositNonce, k: nat) -> Seq<DepositNonce> {
    Seq::new(k, |i: int| (from + 1 + i) as u64)
}

proof fn lemma_transfer_nonces_push(events: Seq<BridgeEventView>, e: BridgeEventView, c: ChainId)
    ensures
        transfer_nonces(events.push(e), c) == match transfer_nonce(e, c) {
            Some(n) => transfer_nonces(events, c).push(n),
            None => transfer_nonces(events, c),
        },
{
    assert(events.push(e).drop_last() =~= events);
}

/// One call to the bridge either leaves the nonce of a whitelisted chain and the
/// transfers to it as they are, or adds one transfer to it, numbered with the new nonce.
proof fn lemma_call_transfer_nonces(s: BridgeState, call: BridgeCall, c: ChainId)
    requires
        s.chains.contains_key(c),
        s.call_fits(call),
    ensures
        s.apply(call).chains.contains_key(c),
        ({
            let t = s.apply(call);
            ||| t.chains[c] == s.chains[c] && transfer_nonces(t.events, c) == transfer_nonces(
                s.events,
                c,
            )
            ||| t.chains[c] == s.chains[c] + 1 && transfer_nonces(t.events, c) == transfer_nonces(
                s.events,
                c,
            ).push(t.chains[c])
        }),
{
    let t = s.apply(call);
    match call {
        BridgeCall::SetRelayerThreshold(th) => {
            if th != 0 {
                lemma_transfer_nonces_push(s.events, BridgeEventView::RelayerThresholdChanged(th), c);
            }
        },
        BridgeCall::Whitelist(id) => {
            if t != s {
                lemma_transfer_nonces_push(s.events, BridgeEventView::ChainWhitelisted(id), c);
            }
        },
        BridgeCall::RegisterRelayer(r) => {
            if t != s {
                lemma_transfer_nonces_push(s.events, BridgeEventView::RelayerAdded(r), c);
            }
        },
        BridgeCall::UnregisterRelayer(r) => {
            if t != s {
                lemma_transfer_nonces_push(s.events, BridgeEventView::RelayerRemoved(r), c);
            }
        },
        BridgeCall::Vote(who, nonce, src, prop, in_favour, now) => {
            let u = s.commit_vote_step(who, nonce, src, prop, in_favour, now).0;
            lemma_transfer_nonces_push(s.events, BridgeEventView::VoteFor(src, nonce, who), c);
            lemma_transfer_nonces_push(s.events, BridgeEventView::VoteAgainst(src, nonce, who), c);
            lemma_transfer_nonces_push(u.events, BridgeEventView::ProposalApproved(src, nonce), c);
            lemma_transfer_nonces_push(u.events, BridgeEventView::ProposalRejected(src, nonce), c);
        },
        BridgeCall::Resolve(nonce, src, prop, now) => {
            lemma_transfer_nonces_push(s.events, BridgeEventView::ProposalApproved(src, nonce), c);
            lemma_transfer_nonces_push(s.events, BridgeEventView::ProposalRejected(src, nonce), c);
        },
        BridgeCall::Finalize(src, nonce, _) => {
            lemma_transfer_nonces_push(s.events, BridgeEventView::ProposalSucceeded(src, nonce), c);
        },
        BridgeCall::TransferFungible(dest, r, amount, to) => {
            if s.chains.contains_key(dest) {
                let n = (s.chains[dest] + 1) as u64;
                lemma_transfer_nonces_push(
                    s.events,
                    BridgeEventView::FungibleTransfer(dest, n, r, amount, to),
                    c,
                );
            }
        },
        BridgeCall::TransferNonFungible(dest, r, id, to, md) => {
            if s.chains.contains_key(dest) {
                let n = (s.chains[dest] + 1) as u64;
                lemma_transfer_nonces_push(
                    s.events,
                    BridgeEventView::NonFungibleTransfer(dest, n, r, id, to, md),
                    c,
                );
            }
        },
        BridgeCall::TransferGeneric(dest, r, md) => {
            if s.chains.contains_key(dest) {
                let n = (s.chains[dest] + 1) as u64;
                lemma_transfer_nonces_push(
                    s.events,
                    BridgeEventView::GenericTransfer(dest, n, r, md),
                    c,
                );
            }
        },
        _ => {},
    }
}

/// Over any sequence of accepted calls, the transfers to a whitelisted chain are
/// numbered without gaps or repeats: the new transfers to it carry the nonces that
/// follow its nonce before the calls, in call order, and its nonce ends at the last one.
pub proof fn lemma_transfer_nonces_in_sequence(s: BridgeState, calls: Seq<BridgeCall>, c: ChainId)
    requires
        s.chains.contains_key(c),
        run_fits(s, calls),
    ensures
        run(s, calls).chains.contains_key(c),
        run(s, calls).chains[c] >= s.chains[c],
        transfer_nonces(run(s, calls).events, c) == transfer_nonces(s.events, c) + nonces_after(
            s.chains[c],
            (run(s, calls).chains[c] - s.chains[c]) as nat,
        ),
    decreases calls.len(),
{
    if calls.len() == 0 {
        assert(transfer_nonces(s.events, c) + nonces_after(s.chains[c], 0) =~= transfer_nonces(
            s.events,
            c,
        ));
    } else {
        let before = calls.drop_last();
        lemma_transfer_nonces_in_sequence(s, before, c);
        let u = run(s, before);
        lemma_call_transfer_nonces(u, calls.last(), c);
        let t = run(s, calls);
        let k = (u.chains[c] - s.chains[c]) as nat;
        if t.chains[c] == u.chains[c] + 1 {
            assert(nonces_after(s.chains[c], k + 1) =~= nonces_after(s.chains[c], k).push(
                t.chains[c],
            ));
            assert(transfer_nonces(s.events, c) + nonces_after(s.chains[c], k).push(t.chains[c])
                =~= (transfer_nonces(s.events, c) + nonces_after(s.chains[c], k)).push(
                t.chains[c],
            ));
        }
    }
}

/// The bridge's configuration, and with it its account (the one that dispatches
/// approved proposals and the only signer that `EnsureBridge` accepts), is the same
/// after any sequence of calls.
pub proof fn lemma_config_fixed(s: BridgeState, calls: Seq<BridgeCall>)
    ensures
        run(s, calls).config == s.config,
        run(s, calls).config.bridge_account == s.config.bridge_account,
    decreases calls.len(),
{
    if calls.len() > 0 {
        lemma_config_fixed(s, calls.drop_last());
        lemma_call_is_monotone_config(run(s, calls.drop_last()), calls.last());
    }
}

proof fn lemma_call_is_monotone_config(s: BridgeState, call: BridgeCall)
    ensures
        s.apply(call).config == s.config,
{
}

/// A vote that is taken is recorded once: the voter then occurs in the proposal's
/// votes, on the side it chose, and no relayer occurs twice among them.
pub proof fn lemma_vote_recorded_once(
    s: BridgeState,
    who: AccountId,
    nonce: DepositNonce,
    src: ChainId,
    prop: Seq<u8>,
    in_favour: bool,
    now: BlockNumber,
)
    requires
        s.inv(),
        s.commit_vote_step(who, nonce, src, prop, in_favour, now).1 is Ok,
    ensures
        ({
            let t = s.commit_vote_step(who, nonce, src, prop, in_favour, now).0;
            let w = t.votes[(src, nonce, prop)];
            &&& t.votes.contains_key((src, nonce, prop))
            &&& w.no_double_votes()
            &&& in_favour ==> w.votes_for.contains(who) && !w.votes_against.contains(who)
            &&& !in_favour ==> w.votes_against.contains(who) && !w.votes_for.contains(who)
            &&& !s.record_or_fresh((src, nonce, prop), now).voted(who)
        }),
{
    lemma_vote_keeps_no_double_votes(s, who, nonce, src, prop, in_favour, now);
    let t = s.commit_vote_step(who, nonce, src, prop, in_favour, now).0;
    let w = t.votes[(src, nonce, prop)];
    if in_favour {
        assert(w.votes_for[w.votes_for.len() - 1] == who);
    } else {
        assert(w.votes_against[w.votes_against.len() - 1] == who);
    }
}

/// A vote followed by a count that succeeds leaves the voter recorded once, on the side
/// it chose.
pub proof fn lemma_vote_step_records_voter(
    s: BridgeState,
    who: AccountId,
    nonce: DepositNonce,
    src: ChainId,
    prop: Seq<u8>,
    in_favour: bool,
    now: BlockNumber,
)
    requires
        s.inv(),
        s.vote_step(who, nonce, src, prop, in_favour, now).1 is Ok,
    ensures
        ({
            let t = s.vote_step(who, nonce, src, prop, in_favour, now).0;
            let w = t.votes[(src, nonce, prop)];
            &&& t.votes.contains_key((src, nonce, prop))
            &&& w.no_double_votes()
            &&& in_favour ==> w.votes_for.contains(who) && !w.votes_against.contains(who)
            &&& !in_favour ==> w.votes_against.contains(who) && !w.votes_for.contains(who)
        }),
{
    lemma_vote_recorded_once(s, who, nonce, src, prop, in_favour, now);
}

/// Transfers to one chain are numbered one after the other: two successive transfers
/// to a whitelisted chain get the next two nonces.
pub proof fn lemma_transfer_nonces_consecutive(
    s: BridgeState,
    dest: ChainId,
    first: spec_fn(DepositNonce) -> BridgeEventView,
    second: spec_fn(DepositNonce) -> BridgeEventView,
)
    requires
        s.chains.contains_key(dest),
        s.chains[dest] + 2 <= u64::MAX,
    ensures
        ({
            let (t1, r1) = s.transfer_step(dest, first);
            let (t2, r2) = t1.transfer_step(dest, second);
            &&& r1 is Ok && r2 is Ok
            &&& t1.events.last() == first((s.chains[dest] + 1) as u64)
            &&& t2.events.last() == second((s.chains[dest] + 2) as u64)
            &&& t2.chains[dest] == s.chains[dest] + 2
        }),
{
}

/// A transfer to a chain that is not whitelisted is refused and changes nothing.
pub proof fn lemma_transfer_needs_whitelist(
    s: BridgeState,
    dest: ChainId,
    event: spec_fn(DepositNonce) -> BridgeEventView,
)
    requires
        !s.chains.contains_key(dest),
    ensures
        s.transfer_step(dest, event) == (s, bridge_err::<()>(BridgeError::ChainNotWhitelisted)),
{
}

/// Removing a relayer right after adding it restores the relayers and their count.
pub proof fn lemma_relayer_register_unregister(s: BridgeState, r: AccountId)
    requires
        s.inv(),
        !s.relayers.contains(r),
        s.relayer_count < u32::MAX,
    ensures
        ({
            let (t1, r1) = s.register_relayer_step(r);
            let (t2, r2) = t1.unregister_relayer_step(r);
            &&& r1 is Ok && r2 is Ok
            &&& t1.relayers.contains(r)
            &&& t2.relayers == s.relayers
            &&& t2.relayer_count == s.relayer_count
        }),
{
    assert(s.relayers.insert(r).remove(r) =~= s.relayers);
}

/// A relayer that has voted on a proposal cannot vote on it again: the second vote is
/// refused and changes nothing.
pub proof fn lemma_no_second_vote(
    s: BridgeState,
    who: AccountId,
    nonce: DepositNonce,
    src: ChainId,
    prop: Seq<u8>,
    in_favour: bool,
    now: BlockNumber,
)
    requires
        s.votes.contains_key((src, nonce, prop)),
        s.votes[(src, nonce, prop)].voted(who),
    ensures
        s.commit_vote_step(who, nonce, src, prop, in_favour, now).0 == s,
        s.commit_vote_step(who, nonce, src, prop, in_favour, now).1 is Err,
        s.vote_step(who, nonce, src, prop, in_favour, now).0 == s,
        s.vote_step(who, nonce, src, prop, in_favour, now).1 is Err,
{
}

/// Once a proposal is approved or rejected, neither votes nor counts change anything:
/// both are refused as already complete.
pub proof fn lemma_complete_is_final(
    s: BridgeState,
    who: AccountId,
    nonce: DepositNonce,
    src: ChainId,
    prop: Seq<u8>,
    in_favour: bool,
    now: BlockNumber,
)
    requires
        s.votes.contains_key((src, nonce, prop)),
        s.votes[(src, nonce, prop)].complete(),
    ensures
        s.vote_step(who, nonce, src, prop, in_favour, now) == (s, bridge_err::<Resolution>(
            BridgeError::ProposalAlreadyComplete,
        )),
        s.resolve_step(nonce, src, prop, now) == (s, bridge_err::<Resolution>(
            BridgeError::ProposalAlreadyComplete,
        )),
{
}

/// A count of the votes on an open proposal asks for its execution exactly when at
/// least `relayer_threshold` relayers voted for it.
pub proof fn lemma_execute_iff_threshold(
    s: BridgeState,
    nonce: DepositNonce,
    src: ChainId,
    prop: Seq<u8>,
    now: BlockNumber,
)
    requires
        s.votes.contains_key((src, nonce, prop)),
        !s.votes[(src, nonce, prop)].complete(),
        !s.votes[(src, nonce, prop)].expired(now),
    ensures
        (s.resolve_step(nonce, src, prop, now).1 == Ok::<Resolution, DispatchError>(
            Resolution::Execute,
        )) == (s.votes[(src, nonce, prop)].votes_for.len() >= s.relayer_threshold),
        s.resolve_step(nonce, src, prop, now).0.votes[(src, nonce, prop)].votes_for
            == s.votes[(src, nonce, prop)].votes_for,
{
}

/// Resource ids of identifiers of one length (at most 31 bytes) are equal exactly when
/// the chains and the identifiers are.
pub proof fn lemma_resource_id_injective(c1: u8, a: Seq<u8>, c2: u8, b: Seq<u8>)
    requires
        a.len() == b.len(),
        a.len() <= 31,
    ensures
        (resource_id_spec(c1, a) == resource_id_spec(c2, b)) == (c1 == c2 && a == b),
{
    let n = a.len() as int;
    if resource_id_spec(c1, a) == resource_id_spec(c2, b) {
        assert(resource_id_spec(c1, a)[31] == c1);
        assert forall|i: int| 0 <= i < n implies a[i] == b[i] by {
            assert(resource_id_spec(c1, a)[i + 31 - n] == a[i]);
            assert(resource_id_spec(c2, b)[i + 31 - n] == b[i]);
        }
        assert(a =~= b);
    }
    if c1 == c2 && a == b {
        assert(resource_id_spec(c1, a) =~= resource_id_spec(c2, b));
    }
}

/// Burning a token right after minting it restores the tokens, their owners and the
/// counter.
pub proof fn lemma_mint_then_burn(s: Erc721State, owner: AccountId, id: TokenId, md: Seq<u8>)
    requires
        s.inv(),
        !s.tokens.contains_key(id),
        s.token_count < u256_max(),
    ensures
        ({
            let (t1, r1) = s.mint_step(owner, id, md);
            let (t2, r2) = t1.burn_step(owner, id);
            &&& r1 is Ok && r2 is Ok
            &&& t1.tokens[id] == md && t1.owners[id] == owner
            &&& t2.tokens == s.tokens
            &&& t2.owners == s.owners
            &&& t2.token_count == s.token_count
        }),
{
    assert(s.tokens.insert(id, md).remove(id) =~= s.tokens);
    assert(!s.owners.contains_key(id));
    assert(s.owners.insert(id, owner).remove(id) =~= s.owners);
}

/// Handing a token over and back restores its owner; only the owner may hand it over.
pub proof fn lemma_transfer_back(s: Erc721State, a: AccountId, b: AccountId, id: TokenId)
    requires
        s.owners.contains_key(id),
        s.owners[id] == a,
    ensures
        ({
            let (t1, r1) = s.transfer_from_step(a, b, id);
            let (t2, r2) = t1.transfer_from_step(b, a, id);
            &&& r1 is Ok && r2 is Ok
            &&& t2.owners == s.owners
            &&& t2.tokens == s.tokens
        }),
        b != a ==> s.transfer_from_step(b, a, id).0 == s,
{
    assert(s.owners.insert(id, b).insert(id, a) =~= s.owners);
}

/// Every registry call keeps the invariant: tokens and owners cover the same ids and
/// the counter is the number of tokens.
pub proof fn lemma_erc721_calls_keep_inv(
    s: Erc721State,
    owner: AccountId,
    other: AccountId,
    id: TokenId,
    md: Seq<u8>,
)
    requires
        s.inv(),
        s.token_count < u256_max(),
    ensures
        s.mint_step(owner, id, md).0.inv(),
        s.transfer_from_step(owner, other, id).0.inv(),
        s.burn_step(owner, id).0.inv(),
{
    let m = s.mint_step(owner, id, md).0;
    if !s.tokens.contains_key(id) {
        assert(m.tokens.dom() =~= m.owners.dom());
    }
    let t = s.transfer_from_step(owner, other, id).0;
    if s.owners.contains_key(id) {
        assert(t.owners.dom() =~= s.owners.dom());
    }
    let b = s.burn_step(owner, id).0;
    if s.owners.contains_key(id) && s.owners[id] == owner {
        assert(b.tokens.dom() =~= b.owners.dom());
    }
}


/// How a count decides: approved once `threshold` relayers voted for the proposal;
/// otherwise rejected exactly when the threshold can be met at all (`total >=
/// threshold`) and the relayers that have not voted against it (`total` minus the votes
/// against, counted as a `u32`) are fewer than the threshold; otherwise still open.
pub proof fn lemma_tally_decides(v: ProposalVotesView, threshold: u32, total: u32)
    ensures
        (v.tally(threshold, total) == ProposalStatus::Approved) == (v.votes_for.len() >= threshold),
        (v.tally(threshold, total) == ProposalStatus::Rejected) == (v.votes_for.len() < threshold
            && total >= threshold && total - (v.votes_against.len() as u32) < threshold),
        (v.tally(threshold, total) == ProposalStatus::Initiated) == (v.votes_for.len() < threshold
            && (total < threshold || total - (v.votes_against.len() as u32) >= threshold)),
{
}

/// A signed vote by a relayer, on a proposal from a whitelisted chain about a
/// registered resource that is still open and that the relayer has not voted on, is
/// taken, whatever the bytes of the resource id: the call succeeds and the relayer is
/// then recorded on the side it chose.
pub proof fn lemma_relayer_vote_taken(
    s: BridgeState,
    who: AccountId,
    nonce: DepositNonce,
    src: ChainId,
    r_id: ResourceId,
    prop: Seq<u8>,
    in_favour: bool,
    now: BlockNumber,
)
    requires
        s.inv(),
        s.relayers.contains(who),
        s.chains.contains_key(src),
        s.resources.contains_key(r_id),
        !s.record_or_fresh((src, nonce, prop), now).complete(),
        !s.record_or_fresh((src, nonce, prop), now).expired(now),
        !s.record_or_fresh((src, nonce, prop), now).voted(who),
    ensures
        ({
            let (t, r) = s.relayer_vote_step(Origin::Signed(who), nonce, src, r_id, prop, in_favour, now);
            let w = t.votes[(src, nonce, prop)];
            &&& r is Ok
            &&& t.votes.contains_key((src, nonce, prop))
            &&& in_favour ==> w.votes_for.contains(who)
            &&& !in_favour ==> w.votes_against.contains(who)
        }),
{
    let key = (src, nonce, prop);
    let u = s.commit_vote_step(who, nonce, src, prop, in_favour, now).0;
    assert(u.votes.contains_key(key));
    assert(!u.votes[key].complete());
    assert(!u.votes[key].expired(now));
    lemma_vote_step_records_voter(s, who, nonce, src, prop, in_favour, now);
}

/// A resource id ends with the chain byte, carries the identifier's bytes (its first
/// 31 at most) in order right before it, and is zero in front of them.
pub proof fn lemma_resource_id_layout(chain: u8, id: Seq<u8>)
    ensures
        resource_id_spec(chain, id).len() == 32,
        resource_id_spec(chain, id)[31] == chain,
        forall|i: int|
            0 <= i < 31 && i < id.len() ==> #[trigger] resource_id_spec(chain, id)[31
                - resource_id_len(id) + i] == id[i],
        forall|j: int|
            0 <= j < 31 - resource_id_len(id) ==> #[trigger] resource_id_spec(chain, id)[j] == 0,
{
}

/// Sending a hash to a whitelisted chain, when signed, succeeds and reports a generic
/// transfer under the hash resource, with the chain's next nonce, whose data is the
/// hash's bytes in order.
pub proof fn lemma_transfer_hash_carries_hash(
    e: ExampleState,
    b: BridgeState,
    who: AccountId,
    hash: [u8; 32],
    dest: ChainId,
)
    requires
        b.chains.contains_key(dest),
        b.chains[dest] < u64::MAX,
    ensures
        ({
            let (t, r) = e.transfer_hash_step(b, Origin::Signed(who), hash, dest);
            &&& r is Ok
            &&& t.chains[dest] == b.chains[dest] + 1
            &&& t.events.len() == b.events.len() + 1
            &&& t.events.last() matches BridgeEventView::GenericTransfer(d, n, rid, data)
            &&& d == dest && n == b.chains[dest] + 1 && rid == e.config.hash_id
            &&& data.len() == 32
            &&& forall|i: int| 0 <= i < 32 ==> data[i] == #[trigger] hash[i]
        }),
{
}

/// Finishing a native transfer to a whitelisted chain after the payment went through
/// succeeds and reports a fungible transfer under the native token resource, with the
/// chain's next nonce, of exactly the amount paid, to the recipient.
pub proof fn lemma_native_transfer_amount(
    e: ExampleState,
    b: BridgeState,
    amount: u128,
    recipient: Seq<u8>,
    dest: ChainId,
)
    requires
        b.chains.contains_key(dest),
        b.chains[dest] < u64::MAX,
    ensures
        ({
            let (t, r) = e.complete_native_step(b, Ok(()), amount, recipient, dest);
            &&& r is Ok
            &&& t.chains[dest] == b.chains[dest] + 1
            &&& t.events.len() == b.events.len() + 1
            &&& t.events.last() matches BridgeEventView::FungibleTransfer(d, n, rid, value, to)
            &&& d == dest && n == b.chains[dest] + 1 && rid == e.config.native_token_id
            &&& value == amount && to == recipient
        }),
{
}

} // verus!
