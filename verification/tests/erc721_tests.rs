use chainbridge::erc721::{Erc721Event, Module as Erc721, Trait as Erc721Config};
use chainbridge::types::{DispatchError, Erc721Error, Origin};
use sp_core::U256;

const USER_A: u64 = 0x1;
const USER_B: u64 = 0x2;
const USER_C: u64 = 0x3;

fn new_registry() -> Erc721 {
    Erc721::new(Erc721Config { identifier: [7u8; 32] })
}

fn err(e: Erc721Error) -> DispatchError {
    DispatchError::Erc721(e)
}

#[test]
fn mint_burn_tokens() {
    let mut r = new_registry();
    let id_a = U256::from(1u64);
    let id_b = U256::from(2u64);
    let metadata_a = vec![1, 2, 3];
    let metadata_b = vec![4, 5, 6];

    assert_eq!(r.mint(&Origin::Root, USER_A, id_a, metadata_a.clone()), Ok(()));
    let token = r.tokens(&id_a).unwrap();
    assert_eq!(token.id, id_a);
    assert_eq!(token.metadata, metadata_a);
    assert_eq!(r.token_count(), U256::from(1u64));
    assert_eq!(r.mint(&Origin::Root, USER_A, id_a, metadata_a.clone()), Err(err(Erc721Error::TokenAlreadyExists)));

    assert_eq!(r.mint(&Origin::Root, USER_A, id_b, metadata_b.clone()), Ok(()));
    assert_eq!(r.tokens(&id_b).unwrap().metadata, metadata_b);
    assert_eq!(r.token_count(), U256::from(2u64));

    assert_eq!(r.burn(&Origin::Root, id_a), Ok(()));
    assert_eq!(r.token_count(), U256::from(1u64));
    assert!(r.tokens(&id_a).is_none());
    assert_eq!(r.owner_of(&id_a), None);

    assert_eq!(r.burn(&Origin::Root, id_b), Ok(()));
    assert_eq!(r.token_count(), U256::zero());
    assert_eq!(r.burn(&Origin::Root, id_b), Err(err(Erc721Error::TokenIdDoesNotExist)));
    assert_eq!(
        r.events(),
        &vec![
            Erc721Event::Minted(USER_A, id_a),
            Erc721Event::Minted(USER_A, id_b),
            Erc721Event::Burned(id_a),
            Erc721Event::Burned(id_b),
        ]
    );
}

#[test]
fn transfer_tokens() {
    let mut r = new_registry();
    let id_a = U256::from(1u64);
    let id_b = U256::from(2u64);
    r.mint(&Origin::Root, USER_A, id_a, vec![1, 2, 3]).unwrap();
    r.mint(&Origin::Root, USER_A, id_b, vec![4, 5, 6]).unwrap();

    assert_eq!(r.transfer(&Origin::Signed(USER_A), USER_B, id_a), Ok(()));
    assert_eq!(r.owner_of(&id_a), Some(USER_B));
    assert_eq!(r.transfer(&Origin::Signed(USER_A), USER_C, id_b), Ok(()));
    assert_eq!(r.owner_of(&id_b), Some(USER_C));
    assert_eq!(r.transfer(&Origin::Signed(USER_B), USER_A, id_a), Ok(()));
    assert_eq!(r.owner_of(&id_a), Some(USER_A));
    assert_eq!(r.transfer(&Origin::Signed(USER_C), USER_A, id_b), Ok(()));
    assert_eq!(r.owner_of(&id_b), Some(USER_A));
    assert_eq!(r.token_count(), U256::from(2u64));
}

#[test]
fn only_the_owner_moves_a_token() {
    let mut r = new_registry();
    let id = U256::from(10u64);
    r.mint_token(USER_A, id, vec![]).unwrap();
    assert_eq!(r.transfer_from(USER_B, USER_C, id), Err(err(Erc721Error::NotOwner)));
    assert_eq!(r.burn_token(USER_B, id), Err(err(Erc721Error::NotOwner)));
    assert_eq!(r.transfer_from(USER_A, USER_C, U256::from(11u64)), Err(err(Erc721Error::TokenIdDoesNotExist)));
    assert_eq!(r.owner_of(&id), Some(USER_A));
    assert_eq!(r.token_count(), U256::from(1u64));
}

#[test]
fn calls_check_their_origin() {
    let mut r = new_registry();
    let id = U256::from(3u64);
    assert_eq!(r.mint(&Origin::Signed(USER_A), USER_A, id, vec![]), Err(DispatchError::BadOrigin));
    r.mint(&Origin::Root, USER_A, id, vec![]).unwrap();
    assert_eq!(r.burn(&Origin::Signed(USER_A), id), Err(DispatchError::BadOrigin));
    assert_eq!(r.transfer(&Origin::Root, USER_B, id), Err(DispatchError::BadOrigin));
    assert_eq!(r.owner_of(&id), Some(USER_A));
}

#[test]
fn large_token_ids() {
    let mut r = new_registry();
    let id = U256::MAX;
    r.mint_token(USER_A, id, vec![9]).unwrap();
    assert_eq!(r.owner_of(&id), Some(USER_A));
    assert_eq!(r.owner_of(&(U256::MAX - U256::one())), None);
    assert_eq!(r.identifier(), [7u8; 32]);
}
