use chainbridge::bridge::{BridgeEvent, Module as Bridge, Trait as BridgeConfig};
use chainbridge::erc721::{Module as Erc721, Trait as Erc721Config};
use chainbridge::example::{ExampleEvent, Module as Example, Payment, Trait as ExampleConfig};
use chainbridge::types::{derive_resource_id, BridgeError, DispatchError, ExampleError, Origin};
use sp_core::U256;

const BRIDGE_ACCOUNT: u64 = 0x622f_6263_6c64_6f6d;
const USER: u64 = 0x1;
const DEST: u8 = 2;

fn setup() -> (Bridge, Erc721, Example) {
    let mut bridge = Bridge::new(BridgeConfig {
        chain_id: 5,
        proposal_lifetime: 50,
        bridge_account: BRIDGE_ACCOUNT,
    });
    bridge.whitelist_chain(&Origin::Root, false, DEST).unwrap();
    let tokens = Erc721::new(Erc721Config { identifier: derive_resource_id(5, b"NFT") });
    let example = Example::new(ExampleConfig {
        hash_id: derive_resource_id(5, b"hash"),
        native_token_id: derive_resource_id(5, b"DAV"),
        erc721_id: derive_resource_id(5, b"NFT"),
    });
    (bridge, tokens, example)
}

#[test]
fn transfer_hash() {
    let (mut bridge, _, example) = setup();
    let hash = [0x11u8; 32];
    assert_eq!(example.transfer_hash(&mut bridge, &Origin::Signed(USER), hash, DEST), Ok(()));
    assert_eq!(
        bridge.events().last(),
        Some(&BridgeEvent::GenericTransfer(DEST, 1, example.hash_id(), hash.to_vec()))
    );
    assert_eq!(
        example.transfer_hash(&mut bridge, &Origin::Signed(USER), hash, 9),
        Err(DispatchError::Bridge(BridgeError::ChainNotWhitelisted))
    );
    assert_eq!(example.transfer_hash(&mut bridge, &Origin::Root, hash, DEST), Err(DispatchError::BadOrigin));
    assert_eq!(bridge.chains(DEST), Some(1));
}

#[test]
fn transfer_native() {
    let (mut bridge, _, example) = setup();
    let amount: u128 = 100;
    let recipient = vec![99u8];
    let payment = example.transfer_native(&bridge, &Origin::Signed(USER), amount, DEST).unwrap();
    assert_eq!(payment, Payment { from: USER, to: BRIDGE_ACCOUNT, amount });
    assert_eq!(example.complete_native_transfer(&mut bridge, Ok(()), amount, recipient.clone(), DEST), Ok(()));
    assert_eq!(
        bridge.events().last(),
        Some(&BridgeEvent::FungibleTransfer(DEST, 1, example.native_token_id(), U256::from(amount), recipient.clone()))
    );
    assert_eq!(
        example.transfer_native(&bridge, &Origin::Signed(USER), amount, 9),
        Err(DispatchError::Example(ExampleError::InvalidTransfer))
    );
    let failure = DispatchError::Other(vec![1]);
    assert_eq!(
        example.complete_native_transfer(&mut bridge, Err(failure.clone()), amount, recipient, DEST),
        Err(failure)
    );
    assert_eq!(bridge.chains(DEST), Some(1));
}

#[test]
fn transfer_erc721() {
    let (mut bridge, mut tokens, example) = setup();
    let token_id = U256::from(0x0102u64);
    let metadata = vec![0xaa, 0xbb];
    let recipient = vec![7u8];
    tokens.mint_token(USER, token_id, metadata.clone()).unwrap();

    assert_eq!(
        example.transfer_erc721(&mut bridge, &mut tokens, &Origin::Signed(USER), recipient.clone(), U256::from(5u64), DEST),
        Err(DispatchError::Example(ExampleError::InvalidTransfer))
    );
    assert_eq!(
        example.transfer_erc721(&mut bridge, &mut tokens, &Origin::Signed(USER), recipient.clone(), token_id, 9),
        Err(DispatchError::Example(ExampleError::InvalidTransfer))
    );
    assert_eq!(
        example.transfer_erc721(&mut bridge, &mut tokens, &Origin::Signed(USER), recipient.clone(), token_id, DEST),
        Ok(())
    );
    assert!(tokens.tokens(&token_id).is_none());
    assert_eq!(tokens.token_count(), U256::zero());
    let mut tid = vec![0u8; 32];
    tid[30] = 0x01;
    tid[31] = 0x02;
    assert_eq!(
        bridge.events().last(),
        Some(&BridgeEvent::NonFungibleTransfer(DEST, 1, example.erc721_id(), tid, recipient, metadata))
    );
}

#[test]
fn transfer_erc721_of_someone_else_fails() {
    let (mut bridge, mut tokens, example) = setup();
    let token_id = U256::from(4u64);
    tokens.mint_token(USER, token_id, vec![]).unwrap();
    assert_eq!(
        example.transfer_erc721(&mut bridge, &mut tokens, &Origin::Signed(USER + 1), vec![], token_id, DEST),
        Err(DispatchError::Erc721(chainbridge::types::Erc721Error::NotOwner))
    );
    assert_eq!(tokens.owner_of(&token_id), Some(USER));
    assert_eq!(bridge.chains(DEST), Some(0));
}

#[test]
fn bridge_delivered_calls() {
    let (bridge, mut tokens, mut example) = setup();
    let source = Example::bridge_origin(&bridge, Origin::Signed(BRIDGE_ACCOUNT));
    assert_eq!(source, Some(BRIDGE_ACCOUNT));
    assert_eq!(Example::bridge_origin(&bridge, Origin::Signed(USER)), None);

    assert_eq!(example.transfer(source, USER, 10), Ok(Payment { from: BRIDGE_ACCOUNT, to: USER, amount: 10 }));
    assert_eq!(example.transfer(None, USER, 10), Err(DispatchError::BadOrigin));

    let hash = [3u8; 32];
    assert_eq!(example.remark(source, hash), Ok(()));
    assert_eq!(example.remark(None, hash), Err(DispatchError::BadOrigin));
    assert_eq!(example.events(), &vec![ExampleEvent::Remark(hash)]);

    let id = U256::from(77u64);
    assert_eq!(example.mint_erc721(&mut tokens, source, USER, id, vec![5]), Ok(()));
    assert_eq!(tokens.owner_of(&id), Some(USER));
    assert_eq!(example.mint_erc721(&mut tokens, None, USER, U256::from(78u64), vec![]), Err(DispatchError::BadOrigin));
}
