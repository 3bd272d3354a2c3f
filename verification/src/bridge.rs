use vstd::prelude::*;
use std::collections::HashMap;
use sp_core::U256;
use crate::table::{StoreKey, Table};
use crate::types::{
    AccountId, BlockNumber, BridgeError, ChainId, DepositNonce, DispatchError, Origin,
    ResourceId, bytes_eq, copy_bytes, ensure_root, ensure_signed,
};
use crate::u256::u256_value;
use crate::votes::{ProposalStatus, ProposalVotes, ProposalVotesView};

verus! {

broadcast use vstd::std_specs::hash::group_hash_axioms;

/// The relayer threshold of a new bridge.
pub const DEFAULT_RELAYER_THRESHOLD: u32 = 1;

/// The configuration that the chain gives the bridge.
#[derive(PartialEq, Eq, Structural, Clone, Copy, Debug)]
pub struct Trait {
    /// The id of the chain that the bridge runs on.
    pub chain_id: ChainId,
    /// For how many blocks after its first vote a proposal takes votes.
    pub proposal_lifetime: BlockNumber,
    /// The bridge's own account, derived from its module id.
    pub bridge_account: AccountId,
}

/// What the bridge reports.
#[derive(PartialEq, Eq, Debug)]
pub enum BridgeEvent {
    /// The vote threshold changed.
    RelayerThresholdChanged(u32),
    /// A chain may now take part in transfers.
    ChainWhitelisted(ChainId),
    /// A relayer was added.
    RelayerAdded(AccountId),
    /// A relayer was removed.
    RelayerRemoved(AccountId),
    /// Fungible tokens leave for a chain: destination, nonce, resource, amount, recipient.
    FungibleTransfer(ChainId, DepositNonce, ResourceId, U256, Vec<u8>),
    /// A non-fungible token leaves for a chain: destination, nonce, resource, token id,
    /// recipient, metadata.
    NonFungibleTransfer(ChainId, DepositNonce, ResourceId, Vec<u8>, Vec<u8>, Vec<u8>),
    /// Arbitrary data leaves for a chain: destination, nonce, resource, data.
    GenericTransfer(ChainId, DepositNonce, ResourceId, Vec<u8>),
    /// A relayer voted for a proposal.
    VoteFor(ChainId, DepositNonce, AccountId),
    /// A relayer voted against a proposal.
    VoteAgainst(ChainId, DepositNonce, AccountId),
    /// A proposal was approved and is being executed.
    ProposalApproved(ChainId, DepositNonce),
    /// A proposal was rejected.
    ProposalRejected(ChainId, DepositNonce),
    /// An approved proposal ran successfully.
    ProposalSucceeded(ChainId, DepositNonce),
    /// An approved proposal failed.
    ProposalFailed(ChainId, DepositNonce),
}

/// The model of [`BridgeEvent`], with byte strings as sequences and amounts as numbers.
pub enum BridgeEventView {
    RelayerThresholdChanged(u32),
    ChainWhitelisted(ChainId),
    RelayerAdded(AccountId),
    RelayerRemoved(AccountId),
    FungibleTransfer(ChainId, DepositNonce, ResourceId, nat, Seq<u8>),
    NonFungibleTransfer(ChainId, DepositNonce, ResourceId, Seq<u8>, Seq<u8>, Seq<u8>),
    GenericTransfer(ChainId, DepositNonce, ResourceId, Seq<u8>),
    VoteFor(ChainId, DepositNonce, AccountId),
    VoteAgainst(ChainId, DepositNonce, AccountId),
    ProposalApproved(ChainId, DepositNonce),
    ProposalRejected(ChainId, DepositNonce),
    ProposalSucceeded(ChainId, DepositNonce),
    ProposalFailed(ChainId, DepositNonce),
}

impl View for BridgeEvent {
    type V = BridgeEventView;

    open spec fn view(&self) -> BridgeEventView {
        match *self {
            BridgeEvent::RelayerThresholdChanged(t) => BridgeEventView::RelayerThresholdChanged(t),
            BridgeEvent::ChainWhitelisted(c) => BridgeEventView::ChainWhitelisted(c),
            BridgeEvent::RelayerAdded(a) => BridgeEventView::RelayerAdded(a),
            BridgeEvent::RelayerRemoved(a) => BridgeEventView::RelayerRemoved(a),
            BridgeEvent::FungibleTransfer(c, n, r, amount, to) => BridgeEventView::FungibleTransfer(
                c,
                n,
                r,
                u256_value(amount),
                to@,
            ),
            BridgeEvent::NonFungibleTransfer(c, n, r, id, to, md) =>
                BridgeEventView::NonFungibleTransfer(c, n, r, id@, to@, md@),
            BridgeEvent::GenericTransfer(c, n, r, md) => BridgeEventView::GenericTransfer(
                c,
                n,
                r,
                md@,
            ),
            BridgeEvent::VoteFor(c, n, a) => BridgeEventView::VoteFor(c, n, a),
            BridgeEvent::VoteAgainst(c, n, a) => BridgeEventView::VoteAgainst(c, n, a),
            BridgeEvent::ProposalApproved(c, n) => BridgeEventView::ProposalApproved(c, n),
            BridgeEvent::ProposalRejected(c, n) => BridgeEventView::ProposalRejected(c, n),
            BridgeEvent::ProposalSucceeded(c, n) => BridgeEventView::ProposalSucceeded(c, n),
            BridgeEvent::ProposalFailed(c, n) => BridgeEventView::ProposalFailed(c, n),
        }
    }
}

/// What is left to do after the votes on a proposal were counted.
#[derive(PartialEq, Eq, Structural, Clone, Copy, Debug)]
pub enum Resolution {
    /// The votes do not decide the proposal yet.
    Pending,
    /// The proposal was rejected.
    Rejected,
    /// The proposal was approved: it must now be dispatched with the bridge's account as
    /// origin, and the outcome handed to `finalize_execution`.
    Execute,
}

/// The key under which the votes on a proposal are kept: the source chain, the
/// deposit nonce there, and the encoded proposal.
pub struct ProposalKey {
    pub src_id: ChainId,
    pub nonce: DepositNonce,
    pub proposal: Vec<u8>,
}

impl StoreKey for ProposalKey {
    type Model = (ChainId, DepositNonce, Seq<u8>);

    open spec fn model(&self) -> (ChainId, DepositNonce, Seq<u8>) {
        (self.src_id, self.nonce, self.proposal@)
    }

    fn same_key(&self, other: &Self) -> (r: bool) {
        self.src_id == other.src_id && self.nonce == other.nonce && bytes_eq(
            &self.proposal,
            &other.proposal,
        )
    }
}

/// The model of the bridge's storage.
pub struct BridgeState {
    pub config: Trait,
    /// The whitelisted chains, each with the nonce of the last transfer sent to it.
    pub chains: Map<ChainId, DepositNonce>,
    pub relayer_threshold: u32,
    pub relayers: Set<AccountId>,
    pub relayer_count: u32,
    /// The votes on each proposal, by source chain, nonce and encoded proposal.
    pub votes: Map<(ChainId, DepositNonce, Seq<u8>), ProposalVotesView>,
    /// The registered resources, each with the method that handles it.
    pub resources: Map<ResourceId, Seq<u8>>,
    /// The events reported so far, oldest first.
    pub events: Seq<BridgeEventView>,
}

/// The admin check passes: the chain's admin origin accepted the call, or it comes from the root.
pub open spec fn admin_ok(origin: Origin, admin_accepted: bool) -> bool {
    admin_accepted || origin == Origin::Root
}

/// The failed outcome of a bridge call with error `e`.
pub open spec fn bridge_err<T>(e: BridgeError) -> Result<T, DispatchError> {
    Err(DispatchError::Bridge(e))
}

impl BridgeState {
    /// What holds of every bridge: its own chain is never whitelisted, the relayer
    /// threshold is positive, the relayer count is the number of relayers, and no
    /// relayer occurs twice among the votes of any proposal.
    pub open spec fn inv(self) -> bool {
        &&& !self.chains.contains_key(self.config.chain_id)
        &&& self.relayer_threshold > 0
        &&& self.relayers.finite()
        &&& self.relayer_count == self.relayers.len()
        &&& forall|k| #[trigger] self.votes.contains_key(k) ==> self.votes[k].no_double_votes()
    }

    /// The nonce of the last transfer sent to `id` (zero before the first one).
    pub open spec fn nonce_of(self, id: ChainId) -> DepositNonce {
        if self.chains.contains_key(id) {
            self.chains[id]
        } else {
            0
        }
    }

    /// The state with `e` reported.
    pub open spec fn emit(self, e: BridgeEventView) -> BridgeState {
        BridgeState { events: self.events.push(e), ..self }
    }

    /// Setting the relayer threshold: it must be positive.
    pub open spec fn set_relayer_threshold_step(self, threshold: u32) -> (
        BridgeState,
        Result<(), DispatchError>,
    ) {
        if threshold == 0 {
            (self, bridge_err(BridgeError::InvalidThreshold))
        } else {
            (
                BridgeState { relayer_threshold: threshold, ..self }.emit(
                    BridgeEventView::RelayerThresholdChanged(threshold),
                ),
                Ok(()),
            )
        }
    }

    /// Whitelisting a chain: not the bridge's own chain, and not twice; its nonce starts at zero.
    pub open spec fn whitelist_step(self, id: ChainId) -> (BridgeState, Result<(), DispatchError>) {
        if id == self.config.chain_id {
            (self, bridge_err(BridgeError::InvalidChainId))
        } else if self.chains.contains_key(id) {
            (self, bridge_err(BridgeError::ChainAlreadyWhitelisted))
        } else {
            (
                BridgeState { chains: self.chains.insert(id, 0), ..self }.emit(
                    BridgeEventView::ChainWhitelisted(id),
                ),
                Ok(()),
            )
        }
    }

    /// Adding a relayer that is not one yet.
    pub open spec fn register_relayer_step(self, relayer: AccountId) -> (
        BridgeState,
        Result<(), DispatchError>,
    ) {
        if self.relayers.contains(relayer) {
            (self, bridge_err(BridgeError::RelayerAlreadyExists))
        } else {
            (
                BridgeState {
                    relayers: self.relayers.insert(relayer),
                    relayer_count: (self.relayer_count + 1) as u32,
                    ..self
                }.emit(BridgeEventView::RelayerAdded(relayer)),
                Ok(()),
            )
        }
    }

    /// Removing a relayer.
    pub open spec fn unregister_relayer_step(self, relayer: AccountId) -> (
        BridgeState,
        Result<(), DispatchError>,
    ) {
        if !self.relayers.contains(relayer) {
            (self, bridge_err(BridgeError::RelayerInvalid))
        } else {
            (
                BridgeState {
                    relayers: self.relayers.remove(relayer),
                    relayer_count: (self.relayer_count - 1) as u32,
                    ..self
                }.emit(BridgeEventView::RelayerRemoved(relayer)),
                Ok(()),
            )
        }
    }

    /// The votes on a proposal, or a fresh record expiring `proposal_lifetime` blocks
    /// after `now` where nobody has voted on it yet.
    pub open spec fn record_or_fresh(
        self,
        key: (ChainId, DepositNonce, Seq<u8>),
        now: BlockNumber,
    ) -> ProposalVotesView {
        if self.votes.contains_key(key) {
            self.votes[key]
        } else {
            ProposalVotesView::fresh((now + self.config.proposal_lifetime) as u64)
        }
    }

    /// A relayer's vote on a proposal: refused once the proposal is complete or expired,
    /// or where the relayer has voted on it before.
    pub open spec fn commit_vote_step(
        self,
        who: AccountId,
        nonce: DepositNonce,
        src_id: ChainId,
        prop: Seq<u8>,
        in_favour: bool,
        now: BlockNumber,
    ) -> (BridgeState, Result<(), DispatchError>) {
        let key = (src_id, nonce, prop);
        let rec = self.record_or_fresh(key, now);
        if rec.complete() {
            (self, bridge_err(BridgeError::ProposalAlreadyComplete))
        } else if rec.expired(now) {
            (self, bridge_err(BridgeError::ProposalExpired))
        } else if rec.voted(who) {
            (self, bridge_err(BridgeError::RelayerAlreadyVoted))
        } else if in_favour {
            (
                BridgeState {
                    votes: self.votes.insert(
                        key,
                        ProposalVotesView { votes_for: rec.votes_for.push(who), ..rec },
                    ),
                    ..self
                }.emit(BridgeEventView::VoteFor(src_id, nonce, who)),
                Ok(()),
            )
        } else {
            (
                BridgeState {
                    votes: self.votes.insert(
                        key,
                        ProposalVotesView { votes_against: rec.votes_against.push(who), ..rec },
                    ),
                    ..self
                }.emit(BridgeEventView::VoteAgainst(src_id, nonce, who)),
                Ok(()),
            )
        }
    }

    /// Counting the votes on a proposal that is neither complete nor expired: the
    /// record takes the status that the count gives, an approval is reported and asks
    /// for the proposal to be executed, a rejection is reported.
    pub open spec fn resolve_step(
        self,
        nonce: DepositNonce,
        src_id: ChainId,
        prop: Seq<u8>,
        now: BlockNumber,
    ) -> (BridgeState, Result<Resolution, DispatchError>) {
        let key = (src_id, nonce, prop);
        if !self.votes.contains_key(key) {
            (self, bridge_err(BridgeError::ProposalDoesNotExist))
        } else {
            let rec = self.votes[key];
            if rec.complete() {
                (self, bridge_err(BridgeError::ProposalAlreadyComplete))
            } else if rec.expired(now) {
                (self, bridge_err(BridgeError::ProposalExpired))
            } else {
                let status = rec.tally(self.relayer_threshold, self.relayer_count);
                let counted = BridgeState {
                    votes: self.votes.insert(key, ProposalVotesView { status, ..rec }),
                    ..self
                };
                if status == ProposalStatus::Approved {
                    (
                        counted.emit(BridgeEventView::ProposalApproved(src_id, nonce)),
                        Ok(Resolution::Execute),
                    )
                } else if status == ProposalStatus::Rejected {
                    (
                        counted.emit(BridgeEventView::ProposalRejected(src_id, nonce)),
                        Ok(Resolution::Rejected),
                    )
                } else {
                    (counted, Ok(Resolution::Pending))
                }
            }
        }
    }

    /// Counting the votes does not overflow: where it is done, the votes against and
    /// the threshold sum to at most `u32::MAX`.
    pub open spec fn resolve_fits(
        self,
        nonce: DepositNonce,
        src_id: ChainId,
        prop: Seq<u8>,
        now: BlockNumber,
    ) -> bool {
        let key = (src_id, nonce, prop);
        self.votes.contains_key(key) && !self.votes[key].complete() && !self.votes[key].expired(
            now,
        ) ==> self.votes[key].tally_fits(self.relayer_threshold, self.relayer_count)
    }

    /// A vote followed by a count of the votes.
    pub open spec fn vote_step(
        self,
        who: AccountId,
        nonce: DepositNonce,
        src_id: ChainId,
        prop: Seq<u8>,
        in_favour: bool,
        now: BlockNumber,
    ) -> (BridgeState, Result<Resolution, DispatchError>) {
        let (s1, r1) = self.commit_vote_step(who, nonce, src_id, prop, in_favour, now);
        if r1 is Err {
            (s1, Err(r1->Err_0))
        } else {
            s1.resolve_step(nonce, src_id, prop, now)
        }
    }

    /// A vote can be cast and counted without overflow: the expiry of a fresh record
    /// fits in a block number, and where the vote is taken, the count that follows fits.
    pub open spec fn vote_fits(
        self,
        who: AccountId,
        nonce: DepositNonce,
        src_id: ChainId,
        prop: Seq<u8>,
        in_favour: bool,
        now: BlockNumber,
    ) -> bool {
        &&& !self.votes.contains_key((src_id, nonce, prop)) ==> now
            + self.config.proposal_lifetime <= u64::MAX
        &&& self.commit_vote_step(who, nonce, src_id, prop, in_favour, now).1 is Ok
            ==> self.commit_vote_step(who, nonce, src_id, prop, in_favour, now).0.resolve_fits(
            nonce,
            src_id,
            prop,
            now,
        )
    }

    /// A signed call by a relayer about a proposal from a whitelisted chain and a
    /// registered resource, which then votes on it.
    pub open spec fn relayer_vote_step(
        self,
        origin: Origin,
        nonce: DepositNonce,
        src_id: ChainId,
        r_id: ResourceId,
        prop: Seq<u8>,
        in_favour: bool,
        now: BlockNumber,
    ) -> (BridgeState, Result<Resolution, DispatchError>) {
        match origin {
            Origin::Signed(who) => {
                if !self.relayers.contains(who) {
                    (self, bridge_err(BridgeError::MustBeRelayer))
                } else if !self.chains.contains_key(src_id) {
                    (self, bridge_err(BridgeError::ChainNotWhitelisted))
                } else if !self.resources.contains_key(r_id) {
                    (self, bridge_err(BridgeError::ResourceDoesNotExist))
                } else {
                    self.vote_step(who, nonce, src_id, prop, in_favour, now)
                }
            },
            _ => (self, Err(DispatchError::BadOrigin)),
        }
    }

    /// The inputs on which a relayer's call runs without overflow: where the call
    /// reaches the vote, the vote fits.
    pub open spec fn relayer_vote_fits(
        self,
        origin: Origin,
        nonce: DepositNonce,
        src_id: ChainId,
        r_id: ResourceId,
        prop: Seq<u8>,
        in_favour: bool,
        now: BlockNumber,
    ) -> bool {
        match origin {
            Origin::Signed(who) => self.relayers.contains(who) && self.chains.contains_key(src_id)
                && self.resources.contains_key(r_id) ==> self.vote_fits(
                who,
                nonce,
                src_id,
                prop,
                in_favour,
                now,
            ),
            _ => true,
        }
    }

    /// Numbering a transfer to a whitelisted chain: its nonce is one more than the
    /// last one, and the transfer is reported as `event(nonce)`.
    pub open spec fn transfer_step(self, dest_id: ChainId, event: spec_fn(DepositNonce) -> BridgeEventView) -> (
        BridgeState,
        Result<(), DispatchError>,
    ) {
        if !self.chains.contains_key(dest_id) {
            (self, bridge_err(BridgeError::ChainNotWhitelisted))
        } else {
            let nonce = (self.chains[dest_id] + 1) as u64;
            (
                BridgeState { chains: self.chains.insert(dest_id, nonce), ..self }.emit(
                    event(nonce),
                ),
                Ok(()),
            )
        }
    }

    /// The nonce of a chain can still be increased.
    pub open spec fn transfer_fits(self, dest_id: ChainId) -> bool {
        self.chains.contains_key(dest_id) ==> self.chains[dest_id] < u64::MAX
    }
}

/// The invariant's part about votes carries over to a state with the same votes.
proof fn lemma_votes_kept(a: BridgeState, b: BridgeState)
    requires
        a.inv(),
        b.votes == a.votes,
    ensures
        forall|k| #[trigger] b.votes.contains_key(k) ==> b.votes[k].no_double_votes(),
{
    assert forall|k| #[trigger] b.votes.contains_key(k) implies b.votes[k].no_double_votes() by {
        assert(a.votes.contains_key(k));
    }
}

/// The bridge: whitelisted chains with their transfer nonces, relayers and their
/// votes on proposals, registered resources, and the events reported.
pub struct Module {
    config: Trait,
    chain_nonces: HashMap<ChainId, DepositNonce>,
    relayer_threshold: u32,
    relayers: HashMap<AccountId, bool>,
    relayer_count: u32,
    votes: Table<ProposalKey, ProposalVotes>,
    resources: Table<ResourceId, Vec<u8>>,
    events: Vec<BridgeEvent>,
}

impl View for Module {
    type V = BridgeState;

    closed spec fn view(&self) -> BridgeState {
        BridgeState {
            config: self.config,
            chains: self.chain_nonces@,
            relayer_threshold: self.relayer_threshold,
            relayers: self.relayers@.dom(),
            relayer_count: self.relayer_count,
            votes: self.votes@.map_values(|v: ProposalVotes| v@),
            resources: self.resources@.map_values(|v: Vec<u8>| v@),
            events: self.events@.map_values(|e: BridgeEvent| e@),
        }
    }
}

impl Module {
    /// The storage is well formed, and the bridge's invariant holds.
    pub open spec fn wf(&self) -> bool {
        self.storage_wf() && self@.inv()
    }

    /// The storage's own invariants.
    pub closed spec fn storage_wf(&self) -> bool {
        &&& self.votes.wf()
        &&& self.resources.wf()
        &&& forall|a: AccountId| #[trigger] self.relayers@.contains_key(a) ==> self.relayers@[a]
    }

    proof fn lemma_votes_view(&self, k: ProposalKey, v: ProposalVotes)
        ensures
            self.votes@.insert(k.model(), v).map_values(|v: ProposalVotes| v@)
                == self@.votes.insert(k.model(), v@),
    {
        assert(self.votes@.insert(k.model(), v).map_values(|v: ProposalVotes| v@)
            =~= self@.votes.insert(k.model(), v@));
    }

    /// A bridge for the chain of `config`, with nothing registered yet and the default
    /// relayer threshold.
    pub fn new(config: Trait) -> (m: Module)
        ensures
            m.wf(),
            m@ == (BridgeState {
                config,
                chains: Map::empty(),
                relayer_threshold: DEFAULT_RELAYER_THRESHOLD,
                relayers: Set::empty(),
                relayer_count: 0,
                votes: Map::empty(),
                resources: Map::empty(),
                events: Seq::empty(),
            }),
    {
        let m = Module {
            config,
            chain_nonces: HashMap::new(),
            relayer_threshold: DEFAULT_RELAYER_THRESHOLD,
            relayers: HashMap::new(),
            relayer_count: 0,
            votes: Table::new(),
            resources: Table::new(),
            events: Vec::new(),
        };
        assert(m@.chains =~= Map::empty());
        assert(m@.relayers =~= Set::empty());
        assert(m@.votes =~= Map::empty());
        assert(m@.resources =~= Map::empty());
        assert(m@.events =~= Seq::empty());
        m
    }

    /// The chain that the bridge runs on.
    pub fn chain_identity(&self) -> (r: ChainId)
        ensures
            r == self@.config.chain_id,
    {
        self.config.chain_id
    }

    /// For how many blocks after its first vote a proposal takes votes.
    pub fn proposal_lifetime(&self) -> (r: BlockNumber)
        ensures
            r == self@.config.proposal_lifetime,
    {
        self.config.proposal_lifetime
    }

    /// The bridge's own account.
    pub fn account_id(&self) -> (r: AccountId)
        ensures
            r == self@.config.bridge_account,
    {
        self.config.bridge_account
    }

    /// The number of relayer votes that approve a proposal.
    pub fn relayer_threshold(&self) -> (r: u32)
        ensures
            r == self@.relayer_threshold,
    {
        self.relayer_threshold
    }

    /// The number of relayers.
    pub fn relayer_count(&self) -> (r: u32)
        ensures
            r == self@.relayer_count,
    {
        self.relayer_count
    }

    /// The events reported so far, oldest first.
    pub fn events(&self) -> (r: &Vec<BridgeEvent>)
        ensures
            r@.map_values(|e: BridgeEvent| e@) == self@.events,
    {
        &self.events
    }

    /// The nonce of the last transfer to a whitelisted chain.
    pub fn chains(&self, id: ChainId) -> (r: Option<DepositNonce>)
        ensures
            r == if self@.chains.contains_key(id) {
                Some(self@.chains[id])
            } else {
                None::<DepositNonce>
            },
    {
        match self.chain_nonces.get(&id) {
            Some(n) => Some(*n),
            None => None,
        }
    }

    /// The method registered for a resource.
    pub fn resources(&self, id: &ResourceId) -> (r: Option<&Vec<u8>>)
        requires
            self.wf(),
        ensures
            match r {
                Some(m) => self@.resources.contains_key(*id) && m@ == self@.resources[*id],
                None => !self@.resources.contains_key(*id),
            },
    {
        self.resources.get(id)
    }

    /// The votes on a proposal.
    pub fn votes(&self, src_id: ChainId, nonce: DepositNonce, prop: &Vec<u8>) -> (r: Option<
        &ProposalVotes,
    >)
        requires
            self.wf(),
        ensures
            match r {
                Some(v) => self@.votes.contains_key((src_id, nonce, prop@)) && v@
                    == self@.votes[(src_id, nonce, prop@)],
                None => !self@.votes.contains_key((src_id, nonce, prop@)),
            },
    {
        let key = ProposalKey { src_id, nonce, proposal: copy_bytes(prop) };
        self.votes.get(&key)
    }

    /// Whether `who` is a relayer.
    pub fn is_relayer(&self, who: &AccountId) -> (r: bool)
        requires
            self.wf(),
        ensures
            r == self@.relayers.contains(*who),
    {
        match self.relayers.get(who) {
            Some(b) => *b,
            None => false,
        }
    }

    /// Whether a method is registered for the resource.
    pub fn resource_exists(&self, id: ResourceId) -> (r: bool)
        requires
            self.wf(),
        ensures
            r == self@.resources.contains_key(id),
    {
        self.resources.contains_key(&id)
    }

    /// Whether the chain is whitelisted.
    pub fn chain_whitelisted(&self, id: ChainId) -> (r: bool)
        ensures
            r == self@.chains.contains_key(id),
    {
        self.chain_nonces.contains_key(&id)
    }

    /// Succeeds where the chain's admin origin accepted the call (`admin_accepted`, the
    /// answer of its origin check) or else where the origin is the root.
    pub fn ensure_admin(o: &Origin, admin_accepted: bool) -> (r: Result<(), DispatchError>)
        ensures
            r == if admin_accepted || *o == Origin::Root {
                Ok::<(), DispatchError>(())
            } else {
                Err::<(), DispatchError>(DispatchError::BadOrigin)
            },
    {
        if admin_accepted {
            Ok(())
        } else {
            ensure_root(o)
        }
    }

    fn emit(&mut self, e: BridgeEvent)
        requires
            old(self).storage_wf(),
        ensures
            final(self)@ == old(self)@.emit(e@),
            final(self).storage_wf(),
            old(self)@.inv() ==> final(self)@.inv(),
    {
        let ghost ev = e@;
        self.events.push(e);
        assert(self@.events =~= old(self)@.events.push(ev));
        assert(self@.votes == old(self)@.votes);
    }

    fn bump_nonce(&mut self, id: ChainId) -> (r: DepositNonce)
        requires
            old(self)@.nonce_of(id) < u64::MAX,
        ensures
            r == old(self)@.nonce_of(id) + 1,
            final(self)@ == (BridgeState { chains: old(self)@.chains.insert(id, r), ..old(self)@ }),
            old(self).storage_wf() ==> final(self).storage_wf(),
    {
        let current = match self.chain_nonces.get(&id) {
            Some(n) => *n,
            None => 0,
        };
        let nonce = current + 1;
        self.chain_nonces.insert(id, nonce);
        nonce
    }

    /// Sets the number of relayer votes that approve a proposal.
    pub fn set_relayer_threshold(&mut self, threshold: u32) -> (r: Result<(), DispatchError>)
        requires
            old(self).wf(),
        ensures
            final(self).wf(),
            (final(self)@, r) == old(self)@.set_relayer_threshold_step(threshold),
    {
        if threshold == 0 {
            return Err(DispatchError::Bridge(BridgeError::InvalidThreshold));
        }
        self.relayer_threshold = threshold;
        proof {
            lemma_votes_kept(old(self)@, self@);
        }
        self.emit(BridgeEvent::RelayerThresholdChanged(threshold));
        Ok(())
    }

    /// Registers `method` as the handler of resource `id`, replacing any earlier one.
    pub fn register_resource(&mut self, id: ResourceId, method: Vec<u8>) -> (r: Result<
        (),
        DispatchError,
    >)
        requires
            old(self).wf(),
        ensures
            final(self).wf(),
            r == Ok::<(), DispatchError>(()),
            final(self)@ == (BridgeState {
                resources: old(self)@.resources.insert(id, method@),
                ..old(self)@
            }),
    {
        let ghost m = method@;
        self.resources.insert(id, method);
        assert(self@.resources =~= old(self)@.resources.insert(id, m));
        Ok(())
    }

    /// Removes the resource `id`, if it is registered.
    pub fn unregister_resource(&mut self, id: ResourceId) -> (r: Result<(), DispatchError>)
        requires
            old(self).wf(),
        ensures
            final(self).wf(),
            r == Ok::<(), DispatchError>(()),
            final(self)@ == (BridgeState {
                resources: old(self)@.resources.remove(id),
                ..old(self)@
            }),
    {
        self.resources.remove(&id);
        assert(self@.resources =~= old(self)@.resources.remove(id));
        Ok(())
    }

    /// Whitelists a chain for transfers.
    pub fn whitelist(&mut self, id: ChainId) -> (r: Result<(), DispatchError>)
        requires
            old(self).wf(),
        ensures
            final(self).wf(),
            (final(self)@, r) == old(self)@.whitelist_step(id),
    {
        if id == self.config.chain_id {
            return Err(DispatchError::Bridge(BridgeError::InvalidChainId));
        }
        if self.chain_whitelisted(id) {
            return Err(DispatchError::Bridge(BridgeError::ChainAlreadyWhitelisted));
        }
        self.chain_nonces.insert(id, 0);
        proof {
            lemma_votes_kept(old(self)@, self@);
        }
        self.emit(BridgeEvent::ChainWhitelisted(id));
        Ok(())
    }

    /// Adds a relayer.
    pub fn register_relayer(&mut self, relayer: AccountId) -> (r: Result<(), DispatchError>)
        requires
            old(self).wf(),
            !old(self)@.relayers.contains(relayer) ==> old(self)@.relayer_count < u32::MAX,
        ensures
            final(self).wf(),
            (final(self)@, r) == old(self)@.register_relayer_step(relayer),
    {
        if self.is_relayer(&relayer) {
            return Err(DispatchError::Bridge(BridgeError::RelayerAlreadyExists));
        }
        self.relayers.insert(relayer, true);
        self.relayer_count = self.relayer_count + 1;
        assert(self@.relayers =~= old(self)@.relayers.insert(relayer));
        proof {
            lemma_votes_kept(old(self)@, self@);
        }
        self.emit(BridgeEvent::RelayerAdded(relayer));
        Ok(())
    }

    /// Removes a relayer.
    pub fn unregister_relayer(&mut self, relayer: AccountId) -> (r: Result<(), DispatchError>)
        requires
            old(self).wf(),
        ensures
            final(self).wf(),
            (final(self)@, r) == old(self)@.unregister_relayer_step(relayer),
    {
        if !self.is_relayer(&relayer) {
            return Err(DispatchError::Bridge(BridgeError::RelayerInvalid));
        }
        self.relayers.remove(&relayer);
        self.relayer_count = self.relayer_count - 1;
        assert(self@.relayers =~= old(self)@.relayers.remove(relayer));
        proof {
            lemma_votes_kept(old(self)@, self@);
        }
        self.emit(BridgeEvent::RelayerRemoved(relayer));
        Ok(())
    }

    fn commit_vote(
        &mut self,
        who: AccountId,
        nonce: DepositNonce,
        src_id: ChainId,
        prop: Vec<u8>,
        in_favour: bool,
        now: BlockNumber,
    ) -> (r: Result<(), DispatchError>)
        requires
            old(self).wf(),
            !old(self)@.votes.contains_key((src_id, nonce, prop@)) ==> now
                + old(self)@.config.proposal_lifetime <= u64::MAX,
        ensures
            final(self).wf(),
            (final(self)@, r) == old(self)@.commit_vote_step(who, nonce, src_id, prop@, in_favour, now),
    {
        let ghost p = prop@;
        let ghost key_model = (src_id, nonce, p);
        let key = ProposalKey { src_id, nonce, proposal: prop };
        let mut votes = match self.votes.get(&key) {
            Some(v) => v.duplicate(),
            None => {
                let mut v = ProposalVotes::default();
                v.expiry = now + self.config.proposal_lifetime;
                v
            },
        };
        let ghost rec = old(self)@.record_or_fresh(key_model, now);
        assert(votes@ == rec);
        if votes.is_complete() {
            return Err(DispatchError::Bridge(BridgeError::ProposalAlreadyComplete));
        }
        if votes.is_expired(now) {
            return Err(DispatchError::Bridge(BridgeError::ProposalExpired));
        }
        if votes.has_voted(&who) {
            return Err(DispatchError::Bridge(BridgeError::RelayerAlreadyVoted));
        }
        if in_favour {
            votes.votes_for.push(who);
            self.emit(BridgeEvent::VoteFor(src_id, nonce, who));
        } else {
            votes.votes_against.push(who);
            self.emit(BridgeEvent::VoteAgainst(src_id, nonce, who));
        }
        proof {
            self.lemma_votes_view(key, votes);
            assert(votes@.no_double_votes()) by {
                assert(!rec.votes_for.contains(who) && !rec.votes_against.contains(who));
                if old(self)@.votes.contains_key(key_model) {
                    assert(rec.no_double_votes());
                }
                assert(forall|i: int|
                    0 <= i < rec.votes_for.len() ==> rec.votes_for[i] != who);
                assert(forall|i: int|
                    0 <= i < rec.votes_against.len() ==> rec.votes_against[i] != who);
            }
        }
        self.votes.insert(key, votes);
        proof {
            let s = self@;
            assert forall|k| #[trigger] s.votes.contains_key(k) implies s.votes[k].no_double_votes() by {
                if k != key_model {
                    assert(old(self)@.votes.contains_key(k));
                }
            }
        }
        Ok(())
    }

    fn cancel_execution(&mut self, src_id: ChainId, nonce: DepositNonce) -> (r: Result<(), DispatchError>)
        requires
            old(self).wf(),
        ensures
            final(self).wf(),
            final(self)@ == old(self)@.emit(BridgeEventView::ProposalRejected(src_id, nonce)),
            r == Ok::<(), DispatchError>(()),
    {
        self.emit(BridgeEvent::ProposalRejected(src_id, nonce));
        Ok(())
    }

    /// Counts the votes on a proposal: marks it approved or rejected where the votes
    /// decide it. An approved proposal is reported and returned as `Execute`: the caller
    /// dispatches it and hands the outcome to `finalize_execution`.
    pub fn try_resolve_proposal(
        &mut self,
        nonce: DepositNonce,
        src_id: ChainId,
        prop: Vec<u8>,
        now: BlockNumber,
    ) -> (r: Result<Resolution, DispatchError>)
        requires
            old(self).wf(),
            old(self)@.resolve_fits(nonce, src_id, prop@, now),
        ensures
            final(self).wf(),
            (final(self)@, r) == old(self)@.resolve_step(nonce, src_id, prop@, now),
    {
        let ghost p = prop@;
        let ghost key_model = (src_id, nonce, p);
        let key = ProposalKey { src_id, nonce, proposal: prop };
        let found = match self.votes.get(&key) {
            Some(v) => Some(v.duplicate()),
            None => None,
        };
        match found {
            None => Err(DispatchError::Bridge(BridgeError::ProposalDoesNotExist)),
            Some(votes) => {
                let mut votes = votes;
                let ghost rec = old(self)@.votes[key_model];
                assert(votes@ == rec);
                if votes.is_complete() {
                    return Err(DispatchError::Bridge(BridgeError::ProposalAlreadyComplete));
                }
                if votes.is_expired(now) {
                    return Err(DispatchError::Bridge(BridgeError::ProposalExpired));
                }
                let status = votes.try_to_complete(self.relayer_threshold, self.relayer_count);
                proof {
                    self.lemma_votes_view(key, votes);
                    assert(votes@ == (ProposalVotesView { status, ..rec }));
                }
                self.votes.insert(key, votes);
                proof {
                    let s = self@;
                    assert forall|k| #[trigger] s.votes.contains_key(k) implies s.votes[k].no_double_votes() by {
                        if k != key_model {
                            assert(old(self)@.votes.contains_key(k));
                        } else {
                            assert(old(self)@.votes.contains_key(key_model));
                            assert(old(self)@.votes[k].no_double_votes());
                        }
                    }
                }
                match status {
                    ProposalStatus::Approved => {
                        self.emit(BridgeEvent::ProposalApproved(src_id, nonce));
                        Ok(Resolution::Execute)
                    },
                    ProposalStatus::Rejected => {
                        let _ = self.cancel_execution(src_id, nonce);
                        Ok(Resolution::Rejected)
                    },
                    ProposalStatus::Initiated => Ok(Resolution::Pending),
                }
            },
        }
    }

    /// Completes the execution of an approved proposal, given the outcome of
    /// dispatching it: a success is reported, a failure is returned as it is.
    pub fn finalize_execution(
        &mut self,
        src_id: ChainId,
        nonce: DepositNonce,
        outcome: Result<(), DispatchError>,
    ) -> (r: Result<(), DispatchError>)
        requires
            old(self).wf(),
            old(self)@.events.contains(BridgeEventView::ProposalApproved(src_id, nonce)),
        ensures
            final(self).wf(),
            r == outcome,
            final(self)@ == if outcome is Ok {
                old(self)@.emit(BridgeEventView::ProposalSucceeded(src_id, nonce))
            } else {
                old(self)@
            },
    {
        if outcome.is_ok() {
            self.emit(BridgeEvent::ProposalSucceeded(src_id, nonce));
        }
        outcome
    }

    /// A relayer's vote for a proposal, followed by a count of its votes.
    pub fn vote_for(
        &mut self,
        who: AccountId,
        nonce: DepositNonce,
        src_id: ChainId,
        prop: Vec<u8>,
        now: BlockNumber,
    ) -> (r: Result<Resolution, DispatchError>)
        requires
            old(self).wf(),
            old(self)@.vote_fits(who, nonce, src_id, prop@, true, now),
        ensures
            final(self).wf(),
            (final(self)@, r) == old(self)@.vote_step(who, nonce, src_id, prop@, true, now),
            r is Ok ==> final(self)@.votes.contains_key((src_id, nonce, prop@)),
            r is Ok ==> final(self)@.votes[(src_id, nonce, prop@)].votes_for.contains(who),
            r is Ok ==> !final(self)@.votes[(src_id, nonce, prop@)].votes_against.contains(who),
    {
        let ghost p = prop@;
        let again = copy_bytes(&prop);
        let r = match self.commit_vote(who, nonce, src_id, prop, true, now) {
            Ok(()) => self.try_resolve_proposal(nonce, src_id, again, now),
            Err(e) => Err(e),
        };
        proof {
            if r is Ok {
                crate::laws::lemma_vote_step_records_voter(old(self)@, who, nonce, src_id, p, true, now);
            }
        }
        r
    }

    /// A relayer's vote against a proposal, followed by a count of its votes.
    pub fn vote_against(
        &mut self,
        who: AccountId,
        nonce: DepositNonce,
        src_id: ChainId,
        prop: Vec<u8>,
        now: BlockNumber,
    ) -> (r: Result<Resolution, DispatchError>)
        requires
            old(self).wf(),
            old(self)@.vote_fits(who, nonce, src_id, prop@, false, now),
        ensures
            final(self).wf(),
            (final(self)@, r) == old(self)@.vote_step(who, nonce, src_id, prop@, false, now),
            r is Ok ==> final(self)@.votes.contains_key((src_id, nonce, prop@)),
            r is Ok ==> final(self)@.votes[(src_id, nonce, prop@)].votes_against.contains(who),
            r is Ok ==> !final(self)@.votes[(src_id, nonce, prop@)].votes_for.contains(who),
    {
        let ghost p = prop@;
        let again = copy_bytes(&prop);
        let r = match self.commit_vote(who, nonce, src_id, prop, false, now) {
            Ok(()) => self.try_resolve_proposal(nonce, src_id, again, now),
            Err(e) => Err(e),
        };
        proof {
            if r is Ok {
                crate::laws::lemma_vote_step_records_voter(old(self)@, who, nonce, src_id, p, false, now);
            }
        }
        r
    }

    fn relayer_vote(
        &mut self,
        origin: &Origin,
        nonce: DepositNonce,
        src_id: ChainId,
        r_id: ResourceId,
        prop: Vec<u8>,
        in_favour: bool,
        now: BlockNumber,
    ) -> (r: Result<Resolution, DispatchError>)
        requires
            old(self).wf(),
            old(self)@.relayer_vote_fits(*origin, nonce, src_id, r_id, prop@, in_favour, now),
        ensures
            final(self).wf(),
            (final(self)@, r) == old(self)@.relayer_vote_step(
                *origin,
                nonce,
                src_id,
                r_id,
                prop@,
                in_favour,
                now,
            ),
    {
        let who = match ensure_signed(origin) {
            Ok(w) => w,
            Err(e) => return Err(e),
        };
        if !self.is_relayer(&who) {
            return Err(DispatchError::Bridge(BridgeError::MustBeRelayer));
        }
        if !self.chain_whitelisted(src_id) {
            return Err(DispatchError::Bridge(BridgeError::ChainNotWhitelisted));
        }
        if !self.resource_exists(r_id) {
            return Err(DispatchError::Bridge(BridgeError::ResourceDoesNotExist));
        }
        if in_favour {
            self.vote_for(who, nonce, src_id, prop, now)
        } else {
            self.vote_against(who, nonce, src_id, prop, now)
        }
    }

    /// A relayer's signed vote for a proposal from a whitelisted chain about a
    /// registered resource, followed by a count of its votes.
    pub fn acknowledge_proposal(
        &mut self,
        origin: &Origin,
        nonce: DepositNonce,
        src_id: ChainId,
        r_id: ResourceId,
        call: Vec<u8>,
        now: BlockNumber,
    ) -> (r: Result<Resolution, DispatchError>)
        requires
            old(self).wf(),
            old(self)@.relayer_vote_fits(*origin, nonce, src_id, r_id, call@, true, now),
        ensures
            final(self).wf(),
            (final(self)@, r) == old(self)@.relayer_vote_step(
                *origin,
                nonce,
                src_id,
                r_id,
                call@,
                true,
                now,
            ),
    {
        self.relayer_vote(origin, nonce, src_id, r_id, call, true, now)
    }

    /// A relayer's signed vote against a proposal from a whitelisted chain about a
    /// registered resource, followed by a count of its votes.
    pub fn reject_proposal(
        &mut self,
        origin: &Origin,
        nonce: DepositNonce,
        src_id: ChainId,
        r_id: ResourceId,
        call: Vec<u8>,
        now: BlockNumber,
    ) -> (r: Result<Resolution, DispatchError>)
        requires
            old(self).wf(),
            old(self)@.relayer_vote_fits(*origin, nonce, src_id, r_id, call@, false, now),
        ensures
            final(self).wf(),
            (final(self)@, r) == old(self)@.relayer_vote_step(
                *origin,
                nonce,
                src_id,
                r_id,
                call@,
                false,
                now,
            ),
    {
        self.relayer_vote(origin, nonce, src_id, r_id, call, false, now)
    }

    /// A signed request to count the votes on a proposal.
    pub fn eval_vote_state(
        &mut self,
        origin: &Origin,
        nonce: DepositNonce,
        src_id: ChainId,
        prop: Vec<u8>,
        now: BlockNumber,
    ) -> (r: Result<Resolution, DispatchError>)
        requires
            old(self).wf(),
            *origin is Signed ==> old(self)@.resolve_fits(nonce, src_id, prop@, now),
        ensures
            final(self).wf(),
            (final(self)@, r) == match *origin {
                Origin::Signed(_) => old(self)@.resolve_step(nonce, src_id, prop@, now),
                _ => (old(self)@, Err(DispatchError::BadOrigin)),
            },
    {
        match ensure_signed(origin) {
            Ok(_) => self.try_resolve_proposal(nonce, src_id, prop, now),
            Err(e) => Err(e),
        }
    }

    /// Sends fungible tokens to a whitelisted chain, under the next nonce of that chain.
    pub fn transfer_fungible(
        &mut self,
        dest_id: ChainId,
        resource_id: ResourceId,
        to: Vec<u8>,
        amount: U256,
    ) -> (r: Result<(), DispatchError>)
        requires
            old(self).wf(),
            old(self)@.transfer_fits(dest_id),
        ensures
            final(self).wf(),
            (final(self)@, r) == old(self)@.transfer_step(
                dest_id,
                |n: DepositNonce|
                    BridgeEventView::FungibleTransfer(dest_id, n, resource_id, u256_value(amount), to@),
            ),
    {
        if !self.chain_whitelisted(dest_id) {
            return Err(DispatchError::Bridge(BridgeError::ChainNotWhitelisted));
        }
        let nonce = self.bump_nonce(dest_id);
        self.emit(BridgeEvent::FungibleTransfer(dest_id, nonce, resource_id, amount, to));
        Ok(())
    }

    /// Sends a non-fungible token to a whitelisted chain, under the next nonce of that chain.
    pub fn transfer_nonfungible(
        &mut self,
        dest_id: ChainId,
        resource_id: ResourceId,
        token_id: Vec<u8>,
        to: Vec<u8>,
        metadata: Vec<u8>,
    ) -> (r: Result<(), DispatchError>)
        requires
            old(self).wf(),
            old(self)@.transfer_fits(dest_id),
        ensures
            final(self).wf(),
            (final(self)@, r) == old(self)@.transfer_step(
                dest_id,
                |n: DepositNonce|
                    BridgeEventView::NonFungibleTransfer(
                        dest_id,
                        n,
                        resource_id,
                        token_id@,
                        to@,
                        metadata@,
                    ),
            ),
    {
        if !self.chain_whitelisted(dest_id) {
            return Err(DispatchError::Bridge(BridgeError::ChainNotWhitelisted));
        }
        let nonce = self.bump_nonce(dest_id);
        self.emit(
            BridgeEvent::NonFungibleTransfer(dest_id, nonce, resource_id, token_id, to, metadata),
        );
        Ok(())
    }

    /// Sends arbitrary data to a whitelisted chain, under the next nonce of that chain.
    pub fn transfer_generic(
        &mut self,
        dest_id: ChainId,
        resource_id: ResourceId,
        metadata: Vec<u8>,
    ) -> (r: Result<(), DispatchError>)
        requires
            old(self).wf(),
            old(self)@.transfer_fits(dest_id),
        ensures
            final(self).wf(),
            (final(self)@, r) == old(self)@.transfer_step(
                dest_id,
                |n: DepositNonce| BridgeEventView::GenericTransfer(dest_id, n, resource_id, metadata@),
            ),
    {
        if !self.chain_whitelisted(dest_id) {
            return Err(DispatchError::Bridge(BridgeError::ChainNotWhitelisted));
        }
        let nonce = self.bump_nonce(dest_id);
        self.emit(BridgeEvent::GenericTransfer(dest_id, nonce, resource_id, metadata));
        Ok(())
    }

    /// Sets the relayer threshold, for the admin origin.
    pub fn set_threshold(&mut self, origin: &Origin, admin_accepted: bool, threshold: u32) -> (r:
        Result<(), DispatchError>)
        requires
            old(self).wf(),
        ensures
            final(self).wf(),
            (final(self)@, r) == if admin_ok(*origin, admin_accepted) {
                old(self)@.set_relayer_threshold_step(threshold)
            } else {
                (old(self)@, Err(DispatchError::BadOrigin))
            },
    {
        match Self::ensure_admin(origin, admin_accepted) {
            Ok(()) => self.set_relayer_threshold(threshold),
            Err(e) => Err(e),
        }
    }

    /// Registers the method of a resource, for the admin origin.
    pub fn set_resource(
        &mut self,
        origin: &Origin,
        admin_accepted: bool,
        id: ResourceId,
        method: Vec<u8>,
    ) -> (r: Result<(), DispatchError>)
        requires
            old(self).wf(),
        ensures
            final(self).wf(),
            (final(self)@, r) == if admin_ok(*origin, admin_accepted) {
                (
                    BridgeState { resources: old(self)@.resources.insert(id, method@), ..old(self)@ },
                    Ok(()),
                )
            } else {
                (old(self)@, Err(DispatchError::BadOrigin))
            },
    {
        match Self::ensure_admin(origin, admin_accepted) {
            Ok(()) => self.register_resource(id, method),
            Err(e) => Err(e),
        }
    }

    /// Removes a resource, for the admin origin.
    pub fn remove_resource(&mut self, origin: &Origin, admin_accepted: bool, id: ResourceId) -> (r:
        Result<(), DispatchError>)
        requires
            old(self).wf(),
        ensures
            final(self).wf(),
            (final(self)@, r) == if admin_ok(*origin, admin_accepted) {
                (BridgeState { resources: old(self)@.resources.remove(id), ..old(self)@ }, Ok(()))
            } else {
                (old(self)@, Err(DispatchError::BadOrigin))
            },
    {
        match Self::ensure_admin(origin, admin_accepted) {
            Ok(()) => self.unregister_resource(id),
            Err(e) => Err(e),
        }
    }

    /// Whitelists a chain, for the admin origin.
    pub fn whitelist_chain(&mut self, origin: &Origin, admin_accepted: bool, id: ChainId) -> (r:
        Result<(), DispatchError>)
        requires
            old(self).wf(),
        ensures
            final(self).wf(),
            (final(self)@, r) == if admin_ok(*origin, admin_accepted) {
                old(self)@.whitelist_step(id)
            } else {
                (old(self)@, Err(DispatchError::BadOrigin))
            },
    {
        match Self::ensure_admin(origin, admin_accepted) {
            Ok(()) => self.whitelist(id),
            Err(e) => Err(e),
        }
    }

    /// Adds a relayer, for the admin origin.
    pub fn add_relayer(&mut self, origin: &Origin, admin_accepted: bool, v: AccountId) -> (r:
        Result<(), DispatchError>)
        requires
            old(self).wf(),
            !old(self)@.relayers.contains(v) ==> old(self)@.relayer_count < u32::MAX,
        ensures
            final(self).wf(),
            (final(self)@, r) == if admin_ok(*origin, admin_accepted) {
                old(self)@.register_relayer_step(v)
            } else {
                (old(self)@, Err(DispatchError::BadOrigin))
            },
    {
        match Self::ensure_admin(origin, admin_accepted) {
            Ok(()) => self.register_relayer(v),
            Err(e) => Err(e),
        }
    }

    /// Removes a relayer, for the admin origin.
    pub fn remove_relayer(&mut self, origin: &Origin, admin_accepted: bool, v: AccountId) -> (r:
        Result<(), DispatchError>)
        requires
            old(self).wf(),
        ensures
            final(self).wf(),
            (final(self)@, r) == if admin_ok(*origin, admin_accepted) {
                old(self)@.unregister_relayer_step(v)
            } else {
                (old(self)@, Err(DispatchError::BadOrigin))
            },
    {
        match Self::ensure_admin(origin, admin_accepted) {
            Ok(()) => self.unregister_relayer(v),
            Err(e) => Err(e),
        }
    }
}

/// The origin check that accepts exactly the calls signed by the bridge's own account.
pub struct EnsureBridge;

impl EnsureBridge {
    /// The bridge's account where `o` is signed by it; `o` itself otherwise.
    pub fn try_origin(bridge: &Module, o: Origin) -> (r: Result<AccountId, Origin>)
        ensures
            r == if o == Origin::Signed(bridge@.config.bridge_account) {
                Ok::<AccountId, Origin>(bridge@.config.bridge_account)
            } else {
                Err::<AccountId, Origin>(o)
            },
    {
        let bridge_id = bridge.account_id();
        match o {
            Origin::Signed(who) => {
                if who == bridge_id {
                    Ok(bridge_id)
                } else {
                    Err(o)
                }
            },
            _ => Err(o),
        }
    }
}

} // verus!
