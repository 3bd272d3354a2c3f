use vstd::prelude::*;

verus! {

broadcast use vstd::array::group_array_axioms;

/// Identifier of a chain taking part in the bridge.
pub type ChainId = u8;

/// Counter of the transfers sent to one destination chain.
pub type DepositNonce = u64;

/// Identifier of a resource (a token or an action) that the bridge knows how to handle.
pub type ResourceId = [u8; 32];

/// Identifier of an account.
pub type AccountId = u64;

/// Height of a block.
pub type BlockNumber = u64;

/// Where a call comes from.
#[derive(PartialEq, Eq, Structural, Clone, Copy, Debug)]
pub enum Origin {
    /// The root of the chain (its governance).
    Root,
    /// An account that signed the call.
    Signed(AccountId),
    /// Nobody: an unsigned call.
    Unsigned,
}

/// The errors of the bridge.
#[derive(PartialEq, Eq, Structural, Clone, Copy, Debug)]
pub enum BridgeError {
    /// The relayer threshold is not set.
    ThresholdNotSet,
    /// A chain id is the bridge's own chain.
    InvalidChainId,
    /// The relayer threshold must be positive.
    InvalidThreshold,
    /// The chain is not whitelisted.
    ChainNotWhitelisted,
    /// The chain is already whitelisted.
    ChainAlreadyWhitelisted,
    /// The resource id is not registered.
    ResourceDoesNotExist,
    /// The account is already a relayer.
    RelayerAlreadyExists,
    /// The account is not a relayer.
    RelayerInvalid,
    /// Only a relayer may do this.
    MustBeRelayer,
    /// The relayer has already voted on the proposal.
    RelayerAlreadyVoted,
    /// The proposal already exists.
    ProposalAlreadyExists,
    /// No vote has been cast on the proposal.
    ProposalDoesNotExist,
    /// The proposal is not complete.
    ProposalNotComplete,
    /// The proposal has already been approved or rejected.
    ProposalAlreadyComplete,
    /// The proposal's voting period is over.
    ProposalExpired,
}

/// The errors of the token registry.
#[derive(PartialEq, Eq, Structural, Clone, Copy, Debug)]
pub enum Erc721Error {
    /// No token has the id.
    TokenIdDoesNotExist,
    /// A token with the id exists.
    TokenAlreadyExists,
    /// The account does not own the token.
    NotOwner,
}

/// The errors of the example module.
#[derive(PartialEq, Eq, Structural, Clone, Copy, Debug)]
pub enum ExampleError {
    /// The transfer cannot be made.
    InvalidTransfer,
}

/// Why a call failed.
#[derive(PartialEq, Eq, Clone, Debug)]
pub enum DispatchError {
    /// The origin may not make the call.
    BadOrigin,
    /// An error of the bridge.
    Bridge(BridgeError),
    /// An error of the token registry.
    Erc721(Erc721Error),
    /// An error of the example module.
    Example(ExampleError),
    /// An error that another module of the chain returned, as its encoded bytes.
    Other(Vec<u8>),
}

/// The account that signed `o`, or `BadOrigin`.
pub fn ensure_signed(o: &Origin) -> (r: Result<AccountId, DispatchError>)
    ensures
        match *o {
            Origin::Signed(who) => r == Ok::<AccountId, DispatchError>(who),
            _ => r == Err::<AccountId, DispatchError>(DispatchError::BadOrigin),
        },
{
    match o {
        Origin::Signed(who) => Ok(*who),
        _ => Err(DispatchError::BadOrigin),
    }
}

/// Succeeds exactly when `o` is the root.
pub fn ensure_root(o: &Origin) -> (r: Result<(), DispatchError>)
    ensures
        r == if *o == Origin::Root {
            Ok::<(), DispatchError>(())
        } else {
            Err::<(), DispatchError>(DispatchError::BadOrigin)
        },
{
    match o {
        Origin::Root => Ok(()),
        _ => Err(DispatchError::BadOrigin),
    }
}

/// A copy of a byte string.
pub fn copy_bytes(v: &Vec<u8>) -> (r: Vec<u8>)
    ensures
        r@ == v@,
{
    let mut r: Vec<u8> = Vec::new();
    let mut i: usize = 0;
    while i < v.len()
        invariant
            i <= v@.len(),
            r@ == v@.subrange(0, i as int),
        decreases v@.len() - i,
    {
        r.push(v[i]);
        i = i + 1;
        assert(r@ =~= v@.subrange(0, i as int));
    }
    assert(r@ =~= v@);
    r
}

/// The bytes of a 32-byte array as a byte string.
pub fn array_to_vec(a: &[u8; 32]) -> (r: Vec<u8>)
    ensures
        r@ == a@,
{
    let mut r: Vec<u8> = Vec::new();
    let mut i: usize = 0;
    while i < 32
        invariant
            i <= 32,
            r@ == a@.subrange(0, i as int),
        decreases 32 - i,
    {
        r.push(a[i]);
        i = i + 1;
        assert(r@ =~= a@.subrange(0, i as int));
    }
    assert(r@ =~= a@);
    r
}

/// Whether two byte strings are equal.
pub fn bytes_eq(a: &Vec<u8>, b: &Vec<u8>) -> (r: bool)
    ensures
        r == (a@ == b@),
{
    if a.len() != b.len() {
        return false;
    }
    let mut i: usize = 0;
    while i < a.len()
        invariant
            a@.len() == b@.len(),
            i <= a@.len(),
            forall|j: int| 0 <= j < i ==> a@[j] == b@[j],
        decreases a@.len() - i,
    {
        if a[i] != b[i] {
            assert(a@[i as int] != b@[i as int]);
            return false;
        }
        i = i + 1;
    }
    assert(a@ =~= b@);
    true
}

/// Number of bytes of the caller's identifier that fit in a resource id.
pub open spec fn resource_id_len(id: Seq<u8>) -> int {
    if id.len() > 31 { 31 } else { id.len() as int }
}

/// The resource id built from a chain and an identifier: the last byte is the chain,
/// the first (at most 31) bytes of the identifier end right before it, and all the
/// bytes in front of them are zero.
pub open spec fn resource_id_spec(chain: u8, id: Seq<u8>) -> Seq<u8> {
    let n = resource_id_len(id);
    Seq::new(32, |j: int|
        if j == 31 {
            chain
        } else if 31 - n <= j {
            id[j - (31 - n)]
        } else {
            0u8
        })
}

/// Builds the resource id of `id` on chain `chain`.
pub fn derive_resource_id(chain: u8, id: &[u8]) -> (r: ResourceId)
    ensures
        r@ == resource_id_spec(chain, id@),
{
    let mut r_id: ResourceId = [0u8; 32];
    r_id[31] = chain;
    let range: usize = if id.len() > 31 { 31 } else { id.len() };
    let mut i: usize = 0;
    while i < range
        invariant
            range == resource_id_len(id@),
            i <= range,
            r_id[31] == chain,
            forall|j: int| 31 - i <= j < 31 ==> r_id[j] == id@[j - (31 - range)],
            forall|j: int| 0 <= j < 31 - i ==> r_id[j] == 0u8,
        decreases range - i,
    {
        r_id[30 - i] = id[range - 1 - i];
        i = i + 1;
    }
    assert(r_id@ =~= resource_id_spec(chain, id@));
    r_id
}

} // verus!
