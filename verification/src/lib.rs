//! A verified model of a cross-chain bridge: relayers vote on proposals coming from
//! whitelisted chains, outgoing transfers are numbered per destination chain, and an
//! ERC-721 style token registry plus a small example module sit on top of it.
pub mod types;
pub mod table;
pub mod u256;
pub mod votes;
pub mod bridge;
pub mod erc721;
pub mod example;
pub mod laws;

pub use types::{derive_resource_id, ChainId, DepositNonce, ResourceId};
pub use votes::{ProposalStatus, ProposalVotes};
