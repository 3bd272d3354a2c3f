use vstd::prelude::*;
use sp_core::U256;
use crate::bridge::{BridgeEventView, BridgeState, EnsureBridge};
use crate::bridge;
use crate::erc721::{Erc721State, TokenId};
use crate::erc721;
use crate::types::{
    AccountId, ChainId, DispatchError, ExampleError, Origin, ResourceId, array_to_vec,
    ensure_signed,
};
use crate::u256::{u256_be_bytes, u256_from_u128, u256_to_big_endian, u256_value};

verus! {

/// The configuration that the chain gives the example module: the resource ids under
/// which hashes, native tokens and registry tokens travel over the bridge.
#[derive(PartialEq, Eq, Clone, Copy, Debug)]
pub struct Trait {
    pub hash_id: ResourceId,
    pub native_token_id: ResourceId,
    pub erc721_id: ResourceId,
}

/// What the example module reports.
#[derive(PartialEq, Eq, Clone, Copy, Debug)]
pub enum ExampleEvent {
    /// A hash arrived over the bridge.
    Remark([u8; 32]),
}

/// A transfer of native currency that the chain has to make.
#[derive(PartialEq, Eq, Structural, Clone, Copy, Debug)]
pub struct Payment {
    pub from: AccountId,
    pub to: AccountId,
    pub amount: u128,
}

/// The model of the example module's storage.
pub struct ExampleState {
    pub config: Trait,
    pub events: Seq<ExampleEvent>,
}

/// The account that signed `origin` (an arbitrary one for other origins).
pub open spec fn origin_account(origin: Origin) -> AccountId {
    match origin {
        Origin::Signed(who) => who,
        _ => 0,
    }
}

/// The failed outcome of an example call that the bridge cannot carry.
pub open spec fn invalid_transfer<T>() -> Result<T, DispatchError> {
    Err(DispatchError::Example(ExampleError::InvalidTransfer))
}

impl ExampleState {
    /// Sending a hash: signed by anyone, carried as generic data under the hash resource.
    pub open spec fn transfer_hash_step(self, b: BridgeState, origin: Origin, hash: [u8; 32], dest_id: ChainId) -> (
        BridgeState,
        Result<(), DispatchError>,
    ) {
        match origin {
            Origin::Signed(_) => b.transfer_step(
                dest_id,
                |n: u64| BridgeEventView::GenericTransfer(dest_id, n, self.config.hash_id, hash@),
            ),
            _ => (b, Err(DispatchError::BadOrigin)),
        }
    }

    /// Sending native tokens, first step: the signer pays `amount` into the bridge's
    /// account, for a whitelisted destination.
    pub open spec fn transfer_native_step(self, b: BridgeState, origin: Origin, amount: u128, dest_id: ChainId) -> Result<
        Payment,
        DispatchError,
    > {
        match origin {
            Origin::Signed(source) => if b.chains.contains_key(dest_id) {
                Ok(Payment { from: source, to: b.config.bridge_account, amount })
            } else {
                invalid_transfer()
            },
            _ => Err(DispatchError::BadOrigin),
        }
    }

    /// Sending native tokens, second step: once the payment went through, the amount
    /// leaves as a fungible transfer under the native token resource.
    pub open spec fn complete_native_step(
        self,
        b: BridgeState,
        outcome: Result<(), DispatchError>,
        amount: u128,
        recipient: Seq<u8>,
        dest_id: ChainId,
    ) -> (BridgeState, Result<(), DispatchError>) {
        if outcome is Err {
            (b, outcome)
        } else {
            b.transfer_step(
                dest_id,
                |n: u64|
                    BridgeEventView::FungibleTransfer(
                        dest_id,
                        n,
                        self.config.native_token_id,
                        amount as nat,
                        recipient,
                    ),
            )
        }
    }

    /// Sending a registry token: the signer's token is burned here and leaves as a
    /// non-fungible transfer carrying its id (big-endian) and its metadata.
    pub open spec fn transfer_erc721_step(
        self,
        b: BridgeState,
        e: Erc721State,
        origin: Origin,
        recipient: Seq<u8>,
        token_id: TokenId,
        dest_id: ChainId,
    ) -> (BridgeState, Erc721State, Result<(), DispatchError>) {
        match origin {
            Origin::Signed(source) => {
                if !b.chains.contains_key(dest_id) {
                    (b, e, invalid_transfer())
                } else if !e.tokens.contains_key(token_id) {
                    (b, e, invalid_transfer())
                } else {
                    let (e2, r2) = e.burn_step(source, token_id);
                    if r2 is Err {
                        (b, e2, r2)
                    } else {
                        let (b2, r3) = b.transfer_step(
                            dest_id,
                            |n: u64|
                                BridgeEventView::NonFungibleTransfer(
                                    dest_id,
                                    n,
                                    self.config.erc721_id,
                                    u256_be_bytes(token_id),
                                    recipient,
                                    e.tokens[token_id],
                                ),
                        );
                        (b2, e2, r3)
                    }
                }
            },
            _ => (b, e, Err(DispatchError::BadOrigin)),
        }
    }
}

/// The example module: moves hashes, native tokens and registry tokens over the
/// bridge, and takes in what the bridge delivers.
pub struct Module {
    config: Trait,
    events: Vec<ExampleEvent>,
}

impl View for Module {
    type V = ExampleState;

    closed spec fn view(&self) -> ExampleState {
        ExampleState { config: self.config, events: self.events@ }
    }
}

impl Module {
    /// The module for the resource ids of `config`.
    pub fn new(config: Trait) -> (m: Module)
        ensures
            m@ == (ExampleState { config, events: Seq::empty() }),
    {
        Module { config, events: Vec::new() }
    }

    /// The resource id of hashes.
    pub fn hash_id(&self) -> (r: ResourceId)
        ensures
            r == self@.config.hash_id,
    {
        self.config.hash_id
    }

    /// The resource id of native tokens.
    pub fn native_token_id(&self) -> (r: ResourceId)
        ensures
            r == self@.config.native_token_id,
    {
        self.config.native_token_id
    }

    /// The resource id of registry tokens.
    pub fn erc721_id(&self) -> (r: ResourceId)
        ensures
            r == self@.config.erc721_id,
    {
        self.config.erc721_id
    }

    /// The events reported so far, oldest first.
    pub fn events(&self) -> (r: &Vec<ExampleEvent>)
        ensures
            r@ == self@.events,
    {
        &self.events
    }

    /// The origin check of a chain that lets only the bridge's account deliver: the
    /// bridge's account where `origin` is signed by it.
    pub fn bridge_origin(bridge: &bridge::Module, origin: Origin) -> (r: Option<AccountId>)
        ensures
            r == if origin == Origin::Signed(bridge@.config.bridge_account) {
                Some(bridge@.config.bridge_account)
            } else {
                None::<AccountId>
            },
    {
        match EnsureBridge::try_origin(bridge, origin) {
            Ok(who) => Some(who),
            Err(_) => None,
        }
    }

    /// Sends a hash to a whitelisted chain.
    pub fn transfer_hash(
        &self,
        bridge: &mut bridge::Module,
        origin: &Origin,
        hash: [u8; 32],
        dest_id: ChainId,
    ) -> (r: Result<(), DispatchError>)
        requires
            old(bridge).wf(),
            *origin is Signed ==> old(bridge)@.transfer_fits(dest_id),
        ensures
            final(bridge).wf(),
            (final(bridge)@, r) == self@.transfer_hash_step(old(bridge)@, *origin, hash, dest_id),
    {
        match ensure_signed(origin) {
            Ok(_) => {},
            Err(e) => return Err(e),
        }
        let resource_id = self.config.hash_id;
        let metadata = array_to_vec(&hash);
        bridge.transfer_generic(dest_id, resource_id, metadata)
    }

    /// Starts sending native tokens to a whitelisted chain: returns the payment into the
    /// bridge's account that the chain must make before `complete_native_transfer`.
    pub fn transfer_native(
        &self,
        bridge: &bridge::Module,
        origin: &Origin,
        amount: u128,
        dest_id: ChainId,
    ) -> (r: Result<Payment, DispatchError>)
        ensures
            r == self@.transfer_native_step(bridge@, *origin, amount, dest_id),
    {
        let source = match ensure_signed(origin) {
            Ok(s) => s,
            Err(e) => return Err(e),
        };
        if !bridge.chain_whitelisted(dest_id) {
            return Err(DispatchError::Example(ExampleError::InvalidTransfer));
        }
        let bridge_id = bridge.account_id();
        Ok(Payment { from: source, to: bridge_id, amount })
    }

    /// Finishes sending native tokens, given the outcome of the payment.
    pub fn complete_native_transfer(
        &self,
        bridge: &mut bridge::Module,
        outcome: Result<(), DispatchError>,
        amount: u128,
        recipient: Vec<u8>,
        dest_id: ChainId,
    ) -> (r: Result<(), DispatchError>)
        requires
            old(bridge).wf(),
            outcome is Ok ==> old(bridge)@.transfer_fits(dest_id),
        ensures
            final(bridge).wf(),
            (final(bridge)@, r) == self@.complete_native_step(
                old(bridge)@,
                outcome,
                amount,
                recipient@,
                dest_id,
            ),
    {
        match outcome {
            Ok(()) => {},
            Err(e) => return Err(e),
        }
        let resource_id = self.config.native_token_id;
        let value: U256 = u256_from_u128(amount);
        bridge.transfer_fungible(dest_id, resource_id, recipient, value)
    }

    /// Sends a registry token of the signer to a whitelisted chain: the token is burned
    /// here and leaves with its id and metadata.
    pub fn transfer_erc721(
        &self,
        bridge: &mut bridge::Module,
        tokens: &mut erc721::Module,
        origin: &Origin,
        recipient: Vec<u8>,
        token_id: TokenId,
        dest_id: ChainId,
    ) -> (r: Result<(), DispatchError>)
        requires
            old(bridge).wf(),
            old(tokens).wf(),
            *origin is Signed && old(tokens)@.burn_step(origin_account(*origin), token_id).1 is Ok
                ==> old(
                bridge,
            )@.transfer_fits(dest_id),
        ensures
            final(bridge).wf(),
            final(tokens).wf(),
            (final(bridge)@, final(tokens)@, r) == self@.transfer_erc721_step(
                old(bridge)@,
                old(tokens)@,
                *origin,
                recipient@,
                token_id,
                dest_id,
            ),
    {
        let source = match ensure_signed(origin) {
            Ok(s) => s,
            Err(e) => return Err(e),
        };
        if !bridge.chain_whitelisted(dest_id) {
            return Err(DispatchError::Example(ExampleError::InvalidTransfer));
        }
        let metadata = match tokens.tokens(&token_id) {
            Some(token) => crate::types::copy_bytes(&token.metadata),
            None => return Err(DispatchError::Example(ExampleError::InvalidTransfer)),
        };
        match tokens.burn_token(source, token_id) {
            Ok(()) => {},
            Err(e) => return Err(e),
        }
        let resource_id = self.config.erc721_id;
        let tid = u256_to_big_endian(&token_id);
        let tid_bytes = array_to_vec(&tid);
        bridge.transfer_nonfungible(dest_id, resource_id, tid_bytes, recipient, metadata)
    }

    /// Pays out native tokens that arrived over the bridge: `source` is what the chain's
    /// bridge origin check answered (the account accepted, if any).
    pub fn transfer(&self, source: Option<AccountId>, to: AccountId, amount: u128) -> (r: Result<
        Payment,
        DispatchError,
    >)
        ensures
            r == match source {
                Some(s) => Ok(Payment { from: s, to, amount }),
                None => Err::<Payment, DispatchError>(DispatchError::BadOrigin),
            },
    {
        match source {
            Some(s) => Ok(Payment { from: s, to, amount }),
            None => Err(DispatchError::BadOrigin),
        }
    }

    /// Reports a hash that arrived over the bridge.
    pub fn remark(&mut self, source: Option<AccountId>, hash: [u8; 32]) -> (r: Result<
        (),
        DispatchError,
    >)
        ensures
            (final(self)@, r) == match source {
                Some(_) => (
                    ExampleState { events: old(self)@.events.push(ExampleEvent::Remark(hash)), ..old(self)@ },
                    Ok::<(), DispatchError>(()),
                ),
                None => (old(self)@, Err::<(), DispatchError>(DispatchError::BadOrigin)),
            },
    {
        match source {
            Some(_) => {
                self.events.push(ExampleEvent::Remark(hash));
                Ok(())
            },
            None => Err(DispatchError::BadOrigin),
        }
    }

    /// Mints a registry token that arrived over the bridge.
    pub fn mint_erc721(
        &self,
        tokens: &mut erc721::Module,
        source: Option<AccountId>,
        recipient: AccountId,
        id: TokenId,
        metadata: Vec<u8>,
    ) -> (r: Result<(), DispatchError>)
        requires
            old(tokens).wf(),
        ensures
            final(tokens).wf(),
            (final(tokens)@, r) == match source {
                Some(_) => old(tokens)@.mint_step(recipient, id, metadata@),
                None => (old(tokens)@, Err::<(), DispatchError>(DispatchError::BadOrigin)),
            },
    {
        match source {
            Some(_) => tokens.mint_token(recipient, id, metadata),
            None => Err(DispatchError::BadOrigin),
        }
    }
}

} // verus!
