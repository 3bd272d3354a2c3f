use vstd::prelude::*;
use sp_core::U256;
use crate::table::Table;
use crate::types::{AccountId, DispatchError, Erc721Error, Origin, ensure_root, ensure_signed};
use crate::u256::{u256_max, u256_one, u256_saturating_add, u256_saturating_sub, u256_value, u256_zero};

verus! {

/// The id of a token.
pub type TokenId = U256;

/// The configuration that the chain gives the token registry.
#[derive(PartialEq, Eq, Clone, Copy, Debug)]
pub struct Trait {
    /// The resource id under which the registry's tokens travel over the bridge.
    pub identifier: [u8; 32],
}

/// A token: its id and its metadata.
#[derive(PartialEq, Eq, Debug)]
pub struct Erc721Token {
    pub id: TokenId,
    pub metadata: Vec<u8>,
}

/// What the token registry reports.
#[derive(PartialEq, Eq, Debug)]
pub enum Erc721Event {
    /// A token was minted for an account.
    Minted(AccountId, TokenId),
    /// A token changed hands: from, to, token.
    Transferred(AccountId, AccountId, TokenId),
    /// A token was burned.
    Burned(TokenId),
}

/// The model of the registry's storage.
pub struct Erc721State {
    pub config: Trait,
    /// The metadata of each token.
    pub tokens: Map<TokenId, Seq<u8>>,
    /// The owner of each token.
    pub owners: Map<TokenId, AccountId>,
    /// The value of the token counter.
    pub token_count: nat,
    /// The events reported so far, oldest first.
    pub events: Seq<Erc721Event>,
}

/// `n + 1`, or `U256::MAX` where that does not fit.
pub open spec fn saturating_inc(n: nat) -> nat {
    if n + 1 > u256_max() {
        u256_max()
    } else {
        n + 1
    }
}

/// `n - 1`, or zero where `n` is zero.
pub open spec fn saturating_dec(n: nat) -> nat {
    if n >= 1 {
        (n - 1) as nat
    } else {
        0
    }
}

/// The failed outcome of a registry call with error `e`.
pub open spec fn erc721_err<T>(e: Erc721Error) -> Result<T, DispatchError> {
    Err(DispatchError::Erc721(e))
}

impl Erc721State {
    /// What holds of every registry: each token has an owner and each owner a token,
    /// and the counter is the number of tokens.
    pub open spec fn inv(self) -> bool {
        &&& self.tokens.dom().finite()
        &&& self.tokens.dom() == self.owners.dom()
        &&& self.token_count == self.tokens.len()
    }

    /// The state with `e` reported.
    pub open spec fn emit(self, e: Erc721Event) -> Erc721State {
        Erc721State { events: self.events.push(e), ..self }
    }

    /// Minting a token with a new id.
    pub open spec fn mint_step(self, owner: AccountId, id: TokenId, metadata: Seq<u8>) -> (
        Erc721State,
        Result<(), DispatchError>,
    ) {
        if self.tokens.contains_key(id) {
            (self, erc721_err(Erc721Error::TokenAlreadyExists))
        } else {
            (
                Erc721State {
                    tokens: self.tokens.insert(id, metadata),
                    owners: self.owners.insert(id, owner),
                    token_count: saturating_inc(self.token_count),
                    ..self
                }.emit(Erc721Event::Minted(owner, id)),
                Ok(()),
            )
        }
    }

    /// Handing a token over: only its owner may.
    pub open spec fn transfer_from_step(self, from: AccountId, to: AccountId, id: TokenId) -> (
        Erc721State,
        Result<(), DispatchError>,
    ) {
        if !self.owners.contains_key(id) {
            (self, erc721_err(Erc721Error::TokenIdDoesNotExist))
        } else if self.owners[id] != from {
            (self, erc721_err(Erc721Error::NotOwner))
        } else {
            (
                Erc721State { owners: self.owners.insert(id, to), ..self }.emit(
                    Erc721Event::Transferred(from, to, id),
                ),
                Ok(()),
            )
        }
    }

    /// Burning a token: only for its owner.
    pub open spec fn burn_step(self, from: AccountId, id: TokenId) -> (
        Erc721State,
        Result<(), DispatchError>,
    ) {
        if !self.owners.contains_key(id) {
            (self, erc721_err(Erc721Error::TokenIdDoesNotExist))
        } else if self.owners[id] != from {
            (self, erc721_err(Erc721Error::NotOwner))
        } else {
            (
                Erc721State {
                    tokens: self.tokens.remove(id),
                    owners: self.owners.remove(id),
                    token_count: saturating_dec(self.token_count),
                    ..self
                }.emit(Erc721Event::Burned(id)),
                Ok(()),
            )
        }
    }
}

/// The token registry: the tokens with their metadata and owners, a counter of the
/// tokens, and the events reported.
pub struct Module {
    config: Trait,
    tokens: Table<TokenId, Erc721Token>,
    owners: Table<TokenId, AccountId>,
    token_count: U256,
    events: Vec<Erc721Event>,
}

impl View for Module {
    type V = Erc721State;

    closed spec fn view(&self) -> Erc721State {
        Erc721State {
            config: self.config,
            tokens: self.tokens@.map_values(|t: Erc721Token| t.metadata@),
            owners: self.owners@,
            token_count: u256_value(self.token_count),
            events: self.events@,
        }
    }
}

impl Module {
    /// The storage is well formed, and the registry's invariant holds.
    pub open spec fn wf(&self) -> bool {
        self.storage_wf() && self@.inv()
    }

    /// The storage's own invariants: each token is stored under its own id.
    pub closed spec fn storage_wf(&self) -> bool {
        &&& self.tokens.wf()
        &&& self.owners.wf()
        &&& forall|k: TokenId| #[trigger] self.tokens@.contains_key(k) ==> self.tokens@[k].id == k
    }

    /// A registry with no tokens.
    pub fn new(config: Trait) -> (m: Module)
        ensures
            m.wf(),
            m@ == (Erc721State {
                config,
                tokens: Map::empty(),
                owners: Map::empty(),
                token_count: 0,
                events: Seq::empty(),
            }),
    {
        let m = Module {
            config,
            tokens: Table::new(),
            owners: Table::new(),
            token_count: u256_zero(),
            events: Vec::new(),
        };
        assert(m@.tokens =~= Map::empty());
        m
    }

    /// The resource id under which the registry's tokens travel over the bridge.
    pub fn identifier(&self) -> (r: [u8; 32])
        ensures
            r == self@.config.identifier,
    {
        self.config.identifier
    }

    /// The token with id `id`.
    pub fn tokens(&self, id: &TokenId) -> (r: Option<&Erc721Token>)
        requires
            self.wf(),
        ensures
            match r {
                Some(t) => self@.tokens.contains_key(*id) && t.id == *id && t.metadata@
                    == self@.tokens[*id],
                None => !self@.tokens.contains_key(*id),
            },
    {
        self.tokens.get(id)
    }

    /// The owner of the token with id `id`.
    pub fn owner_of(&self, id: &TokenId) -> (r: Option<AccountId>)
        requires
            self.wf(),
        ensures
            r == if self@.owners.contains_key(*id) {
                Some(self@.owners[*id])
            } else {
                None::<AccountId>
            },
    {
        match self.owners.get(id) {
            Some(o) => Some(*o),
            None => None,
        }
    }

    /// The token counter.
    pub fn token_count(&self) -> (r: U256)
        ensures
            u256_value(r) == self@.token_count,
    {
        self.token_count
    }

    /// The events reported so far, oldest first.
    pub fn events(&self) -> (r: &Vec<Erc721Event>)
        ensures
            r@ == self@.events,
    {
        &self.events
    }

    /// Mints a token with a new id for `owner`.
    pub fn mint_token(&mut self, owner: AccountId, id: TokenId, metadata: Vec<u8>) -> (r: Result<
        (),
        DispatchError,
    >)
        requires
            old(self).wf(),
        ensures
            final(self).wf(),
            (final(self)@, r) == old(self)@.mint_step(owner, id, metadata@),
    {
        if self.tokens.contains_key(&id) {
            return Err(DispatchError::Erc721(Erc721Error::TokenAlreadyExists));
        }
        let ghost md = metadata@;
        let new_token = Erc721Token { id, metadata };
        proof {
            self.tokens.lemma_finite();
            assert(old(self)@.tokens.dom() =~= old(self).tokens@.dom());
        }
        self.tokens.insert(id, new_token);
        self.owners.insert(id, owner);
        let new_total = u256_saturating_add(self.token_count, u256_one());
        self.token_count = new_total;
        self.events.push(Erc721Event::Minted(owner, id));
        proof {
            let s = self@;
            let o = old(self)@;
            assert(s.tokens =~= o.tokens.insert(id, md));
            assert(s.tokens.dom() =~= s.owners.dom());
            assert(o.tokens.len() <= usize::MAX);
            assert(s.token_count == o.token_count + 1);
            assert(s.tokens.len() == o.tokens.len() + 1);
        }
        Ok(())
    }

    /// Hands the token `id` from its owner `from` over to `to`.
    pub fn transfer_from(&mut self, from: AccountId, to: AccountId, id: TokenId) -> (r: Result<
        (),
        DispatchError,
    >)
        requires
            old(self).wf(),
        ensures
            final(self).wf(),
            (final(self)@, r) == old(self)@.transfer_from_step(from, to, id),
    {
        let owner = match self.owner_of(&id) {
            Some(o) => o,
            None => return Err(DispatchError::Erc721(Erc721Error::TokenIdDoesNotExist)),
        };
        if owner != from {
            return Err(DispatchError::Erc721(Erc721Error::NotOwner));
        }
        self.owners.insert(id, to);
        self.events.push(Erc721Event::Transferred(from, to, id));
        proof {
            let s = self@;
            let o = old(self)@;
            assert(s.owners.dom() =~= o.owners.dom());
            assert(s.tokens == o.tokens);
        }
        Ok(())
    }

    /// Burns the token `id` of its owner `from`.
    pub fn burn_token(&mut self, from: AccountId, id: TokenId) -> (r: Result<(), DispatchError>)
        requires
            old(self).wf(),
        ensures
            final(self).wf(),
            (final(self)@, r) == old(self)@.burn_step(from, id),
    {
        let owner = match self.owner_of(&id) {
            Some(o) => o,
            None => return Err(DispatchError::Erc721(Erc721Error::TokenIdDoesNotExist)),
        };
        if owner != from {
            return Err(DispatchError::Erc721(Erc721Error::NotOwner));
        }
        self.tokens.remove(&id);
        self.owners.remove(&id);
        let new_total = u256_saturating_sub(self.token_count, u256_one());
        self.token_count = new_total;
        self.events.push(Erc721Event::Burned(id));
        proof {
            let s = self@;
            let o = old(self)@;
            assert(s.tokens =~= o.tokens.remove(id));
            assert(s.tokens.dom() =~= s.owners.dom());
            assert(o.tokens.contains_key(id));
            assert(s.tokens.len() == o.tokens.len() - 1);
        }
        Ok(())
    }

    /// Mints a token, for the root origin.
    pub fn mint(&mut self, origin: &Origin, owner: AccountId, id: TokenId, metadata: Vec<u8>) -> (r:
        Result<(), DispatchError>)
        requires
            old(self).wf(),
        ensures
            final(self).wf(),
            (final(self)@, r) == if *origin == Origin::Root {
                old(self)@.mint_step(owner, id, metadata@)
            } else {
                (old(self)@, Err(DispatchError::BadOrigin))
            },
    {
        match ensure_root(origin) {
            Ok(()) => self.mint_token(owner, id, metadata),
            Err(e) => Err(e),
        }
    }

    /// Hands a token over to `to`, for its owner's signed call.
    pub fn transfer(&mut self, origin: &Origin, to: AccountId, id: TokenId) -> (r: Result<
        (),
        DispatchError,
    >)
        requires
            old(self).wf(),
        ensures
            final(self).wf(),
            (final(self)@, r) == match *origin {
                Origin::Signed(sender) => old(self)@.transfer_from_step(sender, to, id),
                _ => (old(self)@, Err(DispatchError::BadOrigin)),
            },
    {
        match ensure_signed(origin) {
            Ok(sender) => self.transfer_from(sender, to, id),
            Err(e) => Err(e),
        }
    }

    /// Burns a token, for the root origin.
    pub fn burn(&mut self, origin: &Origin, id: TokenId) -> (r: Result<(), DispatchError>)
        requires
            old(self).wf(),
        ensures
            final(self).wf(),
            (final(self)@, r) == if *origin != Origin::Root {
                (old(self)@, Err(DispatchError::BadOrigin))
            } else if !old(self)@.owners.contains_key(id) {
                (old(self)@, erc721_err(Erc721Error::TokenIdDoesNotExist))
            } else {
                old(self)@.burn_step(old(self)@.owners[id], id)
            },
    {
        match ensure_root(origin) {
            Ok(()) => {},
            Err(e) => return Err(e),
        }
        let owner = match self.owner_of(&id) {
            Some(o) => o,
            None => return Err(DispatchError::Erc721(Erc721Error::TokenIdDoesNotExist)),
        };
        self.burn_token(owner, id)
    }
}

} // verus!
