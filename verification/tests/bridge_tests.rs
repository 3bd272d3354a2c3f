use chainbridge::bridge::{BridgeEvent, EnsureBridge, Module as Bridge, Resolution, Trait as BridgeConfig};
use chainbridge::types::{derive_resource_id, BridgeError, DispatchError, Origin};
use chainbridge::votes::ProposalStatus;
use sp_core::U256;

const TEST_CHAIN: u8 = 5;
const LIFETIME: u64 = 50;
const BRIDGE_ACCOUNT: u64 = 0x622f_6263_6c64_6f6d;
const RELAYER_A: u64 = 0x2;
const RELAYER_B: u64 = 0x3;
const RELAYER_C: u64 = 0x4;

fn new_bridge() -> Bridge {
    Bridge::new(BridgeConfig {
        chain_id: TEST_CHAIN,
        proposal_lifetime: LIFETIME,
        bridge_account: BRIDGE_ACCOUNT,
    })
}

fn err(e: BridgeError) -> DispatchError {
    DispatchError::Bridge(e)
}

/// A bridge with three relayers, threshold 2, source chain 1 whitelisted and one resource.
fn setup() -> (Bridge, [u8; 32]) {
    let mut b = new_bridge();
    let r_id = derive_resource_id(1, b"remark");
    b.set_threshold(&Origin::Root, false, 2).unwrap();
    b.add_relayer(&Origin::Root, false, RELAYER_A).unwrap();
    b.add_relayer(&Origin::Root, false, RELAYER_B).unwrap();
    b.add_relayer(&Origin::Root, false, RELAYER_C).unwrap();
    b.whitelist_chain(&Origin::Root, false, 1).unwrap();
    b.set_resource(&Origin::Root, false, r_id, b"Example.remark".to_vec()).unwrap();
    (b, r_id)
}

#[test]
fn new_bridge_is_empty() {
    let b = new_bridge();
    assert_eq!(b.relayer_threshold(), 1);
    assert_eq!(b.relayer_count(), 0);
    assert_eq!(b.chain_identity(), TEST_CHAIN);
    assert_eq!(b.proposal_lifetime(), LIFETIME);
    assert_eq!(b.account_id(), BRIDGE_ACCOUNT);
    assert!(b.events().is_empty());
}

#[test]
fn set_get_threshold() {
    let mut b = new_bridge();
    assert_eq!(b.set_threshold(&Origin::Root, false, 5), Ok(()));
    assert_eq!(b.relayer_threshold(), 5);
    assert_eq!(b.set_threshold(&Origin::Root, false, 0), Err(err(BridgeError::InvalidThreshold)));
    assert_eq!(b.relayer_threshold(), 5);
    assert_eq!(b.events(), &vec![BridgeEvent::RelayerThresholdChanged(5)]);
}

#[test]
fn admin_calls_need_admin_or_root() {
    let mut b = new_bridge();
    assert_eq!(b.set_threshold(&Origin::Signed(9), false, 3), Err(DispatchError::BadOrigin));
    assert_eq!(b.relayer_threshold(), 1);
    assert_eq!(b.set_threshold(&Origin::Signed(9), true, 3), Ok(()));
    assert_eq!(b.relayer_threshold(), 3);
    assert_eq!(b.whitelist_chain(&Origin::Unsigned, false, 2), Err(DispatchError::BadOrigin));
    assert!(!b.chain_whitelisted(2));
    assert_eq!(Bridge::ensure_admin(&Origin::Root, false), Ok(()));
    assert_eq!(Bridge::ensure_admin(&Origin::Signed(1), true), Ok(()));
    assert_eq!(Bridge::ensure_admin(&Origin::Signed(1), false), Err(DispatchError::BadOrigin));
}

#[test]
fn setup_resources() {
    let mut b = new_bridge();
    let id = [1u8; 32];
    let method = b"Pallet.do_something".to_vec();
    let method2 = b"Pallet.do_somethingElse".to_vec();
    assert_eq!(b.set_resource(&Origin::Root, false, id, method.clone()), Ok(()));
    assert_eq!(b.resources(&id), Some(&method));
    assert!(b.resource_exists(id));
    assert_eq!(b.set_resource(&Origin::Root, false, id, method2.clone()), Ok(()));
    assert_eq!(b.resources(&id), Some(&method2));
    assert_eq!(b.remove_resource(&Origin::Root, false, id), Ok(()));
    assert_eq!(b.resources(&id), None);
    assert!(!b.resource_exists(id));
}

#[test]
fn whitelist_chain() {
    let mut b = new_bridge();
    assert!(!b.chain_whitelisted(0));
    assert_eq!(b.whitelist_chain(&Origin::Root, false, 0), Ok(()));
    assert!(b.chain_whitelisted(0));
    assert_eq!(b.chains(0), Some(0));
    assert_eq!(b.whitelist_chain(&Origin::Root, false, TEST_CHAIN), Err(err(BridgeError::InvalidChainId)));
    assert_eq!(b.whitelist_chain(&Origin::Root, false, 0), Err(err(BridgeError::ChainAlreadyWhitelisted)));
    assert_eq!(b.events(), &vec![BridgeEvent::ChainWhitelisted(0)]);
}

#[test]
fn asset_transfer_success() {
    let mut b = new_bridge();
    let dest = 0;
    let rid = [1u8; 32];
    let to = vec![2u8];
    let amount = U256::from(100u64);
    b.whitelist_chain(&Origin::Root, false, dest).unwrap();
    assert_eq!(b.transfer_fungible(dest, rid, to.clone(), amount), Ok(()));
    assert_eq!(b.transfer_nonfungible(dest, rid, vec![1], to.clone(), vec![3, 4]), Ok(()));
    assert_eq!(b.transfer_generic(dest, rid, vec![9, 9]), Ok(()));
    assert_eq!(b.chains(dest), Some(3));
    let ev = b.events();
    assert_eq!(ev.len(), 4);
    assert_eq!(ev[1], BridgeEvent::FungibleTransfer(dest, 1, rid, amount, to.clone()));
    assert_eq!(ev[2], BridgeEvent::NonFungibleTransfer(dest, 2, rid, vec![1], to, vec![3, 4]));
    assert_eq!(ev[3], BridgeEvent::GenericTransfer(dest, 3, rid, vec![9, 9]));
}

#[test]
fn asset_transfer_invalid_chain() {
    let mut b = new_bridge();
    let rid = [1u8; 32];
    assert_eq!(
        b.transfer_fungible(3, rid, vec![1], U256::from(5u64)),
        Err(err(BridgeError::ChainNotWhitelisted))
    );
    assert_eq!(b.transfer_generic(3, rid, vec![]), Err(err(BridgeError::ChainNotWhitelisted)));
    assert_eq!(
        b.transfer_nonfungible(3, rid, vec![], vec![], vec![]),
        Err(err(BridgeError::ChainNotWhitelisted))
    );
    assert_eq!(b.chains(3), None);
    assert!(b.events().is_empty());
}

#[test]
fn add_remove_relayer() {
    let mut b = new_bridge();
    assert_eq!(b.add_relayer(&Origin::Root, false, RELAYER_A), Ok(()));
    assert_eq!(b.add_relayer(&Origin::Root, false, RELAYER_B), Ok(()));
    assert_eq!(b.add_relayer(&Origin::Root, false, RELAYER_C), Ok(()));
    assert_eq!(b.relayer_count(), 3);
    assert_eq!(b.add_relayer(&Origin::Root, false, RELAYER_A), Err(err(BridgeError::RelayerAlreadyExists)));
    assert_eq!(b.remove_relayer(&Origin::Root, false, RELAYER_B), Ok(()));
    assert_eq!(b.relayer_count(), 2);
    assert!(!b.is_relayer(&RELAYER_B));
    assert!(b.is_relayer(&RELAYER_A));
    assert_eq!(b.remove_relayer(&Origin::Root, false, RELAYER_B), Err(err(BridgeError::RelayerInvalid)));
    assert_eq!(b.relayer_count(), 2);
    assert_eq!(
        b.events(),
        &vec![
            BridgeEvent::RelayerAdded(RELAYER_A),
            BridgeEvent::RelayerAdded(RELAYER_B),
            BridgeEvent::RelayerAdded(RELAYER_C),
            BridgeEvent::RelayerRemoved(RELAYER_B),
        ]
    );
}

#[test]
fn create_successful_proposal() {
    let (mut b, r_id) = setup();
    let prop = b"remark(0x42)".to_vec();
    let before = b.events().len();
    assert_eq!(b.acknowledge_proposal(&Origin::Signed(RELAYER_A), 1, 1, r_id, prop.clone(), 1), Ok(Resolution::Pending));
    let v = b.votes(1, 1, &prop).unwrap();
    assert_eq!(v.votes_for, vec![RELAYER_A]);
    assert_eq!(v.expiry, 1 + LIFETIME);
    assert_eq!(b.reject_proposal(&Origin::Signed(RELAYER_B), 1, 1, r_id, prop.clone(), 1), Ok(Resolution::Pending));
    assert_eq!(b.acknowledge_proposal(&Origin::Signed(RELAYER_C), 1, 1, r_id, prop.clone(), 2), Ok(Resolution::Execute));
    let v = b.votes(1, 1, &prop).unwrap();
    assert_eq!(v.votes_for, vec![RELAYER_A, RELAYER_C]);
    assert_eq!(v.votes_against, vec![RELAYER_B]);
    assert_eq!(v.status, ProposalStatus::Approved);
    assert_eq!(b.finalize_execution(1, 1, Ok(())), Ok(()));
    let ev = &b.events()[before..];
    assert_eq!(
        ev,
        &[
            BridgeEvent::VoteFor(1, 1, RELAYER_A),
            BridgeEvent::VoteAgainst(1, 1, RELAYER_B),
            BridgeEvent::VoteFor(1, 1, RELAYER_C),
            BridgeEvent::ProposalApproved(1, 1),
            BridgeEvent::ProposalSucceeded(1, 1),
        ]
    );
}

#[test]
fn create_unsuccessful_proposal() {
    let (mut b, r_id) = setup();
    let prop = b"remark(0x43)".to_vec();
    let before = b.events().len();
    assert_eq!(b.acknowledge_proposal(&Origin::Signed(RELAYER_A), 1, 1, r_id, prop.clone(), 1), Ok(Resolution::Pending));
    assert_eq!(b.reject_proposal(&Origin::Signed(RELAYER_B), 1, 1, r_id, prop.clone(), 1), Ok(Resolution::Pending));
    assert_eq!(b.reject_proposal(&Origin::Signed(RELAYER_C), 1, 1, r_id, prop.clone(), 1), Ok(Resolution::Rejected));
    let v = b.votes(1, 1, &prop).unwrap();
    assert_eq!(v.votes_for, vec![RELAYER_A]);
    assert_eq!(v.votes_against, vec![RELAYER_B, RELAYER_C]);
    assert_eq!(v.status, ProposalStatus::Rejected);
    let ev = &b.events()[before..];
    assert_eq!(
        ev,
        &[
            BridgeEvent::VoteFor(1, 1, RELAYER_A),
            BridgeEvent::VoteAgainst(1, 1, RELAYER_B),
            BridgeEvent::VoteAgainst(1, 1, RELAYER_C),
            BridgeEvent::ProposalRejected(1, 1),
        ]
    );
    // A complete proposal takes no more votes.
    assert_eq!(
        b.acknowledge_proposal(&Origin::Signed(RELAYER_A), 1, 1, r_id, prop.clone(), 1),
        Err(err(BridgeError::ProposalAlreadyComplete))
    );
}

#[test]
fn execute_after_threshold_change() {
    let (mut b, r_id) = setup();
    b.set_threshold(&Origin::Root, false, 3).unwrap();
    let prop = b"remark(0x44)".to_vec();
    assert_eq!(b.acknowledge_proposal(&Origin::Signed(RELAYER_A), 1, 1, r_id, prop.clone(), 1), Ok(Resolution::Pending));
    b.set_threshold(&Origin::Root, false, 1).unwrap();
    assert_eq!(b.eval_vote_state(&Origin::Signed(RELAYER_A), 1, 1, prop.clone(), 1), Ok(Resolution::Execute));
    assert_eq!(b.votes(1, 1, &prop).unwrap().status, ProposalStatus::Approved);
    assert_eq!(b.eval_vote_state(&Origin::Root, 1, 1, prop.clone(), 1), Err(DispatchError::BadOrigin));
}

#[test]
fn proposal_expires() {
    let (mut b, r_id) = setup();
    let prop = b"remark(0x45)".to_vec();
    assert_eq!(b.acknowledge_proposal(&Origin::Signed(RELAYER_A), 1, 1, r_id, prop.clone(), 1), Ok(Resolution::Pending));
    let expiry = 1 + LIFETIME;
    assert_eq!(
        b.acknowledge_proposal(&Origin::Signed(RELAYER_B), 1, 1, r_id, prop.clone(), expiry),
        Err(err(BridgeError::ProposalExpired))
    );
    assert_eq!(b.eval_vote_state(&Origin::Signed(RELAYER_B), 1, 1, prop.clone(), expiry), Err(err(BridgeError::ProposalExpired)));
    let v = b.votes(1, 1, &prop).unwrap();
    assert_eq!(v.votes_for, vec![RELAYER_A]);
    assert!(v.votes_against.is_empty());
    assert_eq!(v.status, ProposalStatus::Initiated);
}

#[test]
fn relayer_cannot_vote_twice() {
    let (mut b, r_id) = setup();
    let prop = b"remark(0x46)".to_vec();
    b.acknowledge_proposal(&Origin::Signed(RELAYER_A), 7, 1, r_id, prop.clone(), 1).unwrap();
    assert_eq!(
        b.reject_proposal(&Origin::Signed(RELAYER_A), 7, 1, r_id, prop.clone(), 1),
        Err(err(BridgeError::RelayerAlreadyVoted))
    );
    assert_eq!(b.votes(1, 7, &prop).unwrap().votes_for, vec![RELAYER_A]);
}

#[test]
fn votes_need_relayer_whitelist_and_resource() {
    let (mut b, r_id) = setup();
    let prop = vec![1, 2, 3];
    assert_eq!(b.acknowledge_proposal(&Origin::Signed(99), 1, 1, r_id, prop.clone(), 1), Err(err(BridgeError::MustBeRelayer)));
    assert_eq!(b.acknowledge_proposal(&Origin::Signed(RELAYER_A), 1, 2, r_id, prop.clone(), 1), Err(err(BridgeError::ChainNotWhitelisted)));
    assert_eq!(
        b.acknowledge_proposal(&Origin::Signed(RELAYER_A), 1, 1, [7u8; 32], prop.clone(), 1),
        Err(err(BridgeError::ResourceDoesNotExist))
    );
    assert_eq!(b.acknowledge_proposal(&Origin::Root, 1, 1, r_id, prop.clone(), 1), Err(DispatchError::BadOrigin));
    assert!(b.votes(1, 1, &prop).is_none());
}

#[test]
fn resolving_unknown_proposal_fails() {
    let (mut b, _) = setup();
    assert_eq!(b.try_resolve_proposal(1, 1, vec![5], 1), Err(err(BridgeError::ProposalDoesNotExist)));
}

#[test]
fn failed_execution_is_returned() {
    let (mut b, _) = setup();
    b.set_threshold(&Origin::Root, false, 1).unwrap();
    assert_eq!(b.vote_for(RELAYER_A, 1, 1, vec![6], 1), Ok(Resolution::Execute));
    assert_eq!(b.events().last(), Some(&BridgeEvent::ProposalApproved(1, 1)));
    let before = b.events().len();
    let failure = DispatchError::Other(vec![3, 1]);
    assert_eq!(b.finalize_execution(1, 1, Err(failure.clone())), Err(failure));
    assert_eq!(b.events().len(), before);
}

#[test]
fn direct_votes_count_immediately() {
    let (mut b, _) = setup();
    let prop = vec![8];
    assert_eq!(b.vote_for(RELAYER_A, 3, 1, prop.clone(), 1), Ok(Resolution::Pending));
    assert_eq!(b.vote_against(RELAYER_B, 3, 1, prop.clone(), 1), Ok(Resolution::Pending));
    assert_eq!(b.vote_for(RELAYER_C, 3, 1, prop.clone(), 1), Ok(Resolution::Execute));
}

#[test]
fn ensure_bridge_origin() {
    let b = new_bridge();
    assert_eq!(EnsureBridge::try_origin(&b, Origin::Signed(BRIDGE_ACCOUNT)), Ok(BRIDGE_ACCOUNT));
    assert_eq!(EnsureBridge::try_origin(&b, Origin::Signed(1)), Err(Origin::Signed(1)));
    assert_eq!(EnsureBridge::try_origin(&b, Origin::Root), Err(Origin::Root));
}

#[test]
fn relayer_added_then_removed_restores_count() {
    let (mut b, _) = setup();
    let count = b.relayer_count();
    b.add_relayer(&Origin::Root, false, 42).unwrap();
    assert_eq!(b.relayer_count(), count + 1);
    b.remove_relayer(&Origin::Root, false, 42).unwrap();
    assert_eq!(b.relayer_count(), count);
    assert!(!b.is_relayer(&42));
}

#[test]
fn transfer_nonces_run_without_gaps_between_other_calls() {
    let (mut b, r_id) = setup();
    b.whitelist_chain(&Origin::Root, false, 8).unwrap();
    b.transfer_generic(1, r_id, vec![1]).unwrap();
    b.transfer_generic(8, r_id, vec![2]).unwrap();
    b.acknowledge_proposal(&Origin::Signed(RELAYER_A), 1, 1, r_id, vec![3], 1).unwrap();
    b.transfer_fungible(1, r_id, vec![4], U256::from(7u64)).unwrap();
    b.set_threshold(&Origin::Root, false, 3).unwrap();
    b.transfer_nonfungible(1, r_id, vec![5], vec![6], vec![7]).unwrap();
    let nonces: Vec<u64> = b
        .events()
        .iter()
        .filter_map(|e| match e {
            BridgeEvent::FungibleTransfer(1, n, ..) => Some(*n),
            BridgeEvent::NonFungibleTransfer(1, n, ..) => Some(*n),
            BridgeEvent::GenericTransfer(1, n, ..) => Some(*n),
            _ => None,
        })
        .collect();
    assert_eq!(nonces, vec![1, 2, 3]);
    assert_eq!(b.chains(1), Some(3));
    assert_eq!(b.chains(8), Some(1));
    assert_eq!(b.account_id(), BRIDGE_ACCOUNT);
}
