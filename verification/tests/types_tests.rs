use chainbridge::types::{derive_resource_id, ensure_root, ensure_signed, DispatchError, Origin};

#[test]
fn derive_ids() {
    let chain = 1;
    let id = [
        0x21, 0x60, 0x5f, 0x71, 0x84, 0x5f, 0x37, 0x2a, 0x9e, 0xd8, 0x42, 0x53, 0xd2, 0xd0, 0x24,
        0xb7, 0xb1, 0x09, 0x99, 0xf4,
    ];
    let r_id = derive_resource_id(chain, &id);
    let expected = [
        0x00, 0x00, 0x00, 0x00, 0x00, 0x00, 0x00, 0x00, 0x00, 0x00, 0x00, 0x21, 0x60, 0x5f, 0x71,
        0x84, 0x5f, 0x37, 0x2a, 0x9e, 0xd8, 0x42, 0x53, 0xd2, 0xd0, 0x24, 0xb7, 0xb1, 0x09, 0x99,
        0xf4, chain,
    ];
    assert_eq!(r_id, expected);
}

#[test]
fn derive_id_of_empty_identifier() {
    let r_id = derive_resource_id(7, &[]);
    let mut expected = [0u8; 32];
    expected[31] = 7;
    assert_eq!(r_id, expected);
}

#[test]
fn derive_id_keeps_first_31_bytes_of_long_identifier() {
    let id: Vec<u8> = (1..=40).collect();
    let r_id = derive_resource_id(9, &id);
    let mut expected = [0u8; 32];
    for j in 0..31 {
        expected[j] = (j + 1) as u8;
    }
    expected[31] = 9;
    assert_eq!(r_id, expected);
}

#[test]
fn derive_id_of_exactly_31_bytes() {
    let id = [0xabu8; 31];
    let r_id = derive_resource_id(0, &id);
    let mut expected = [0xabu8; 32];
    expected[31] = 0;
    assert_eq!(r_id, expected);
}

#[test]
fn origins_are_checked() {
    assert_eq!(ensure_signed(&Origin::Signed(5)), Ok(5));
    assert_eq!(ensure_signed(&Origin::Root), Err(DispatchError::BadOrigin));
    assert_eq!(ensure_signed(&Origin::Unsigned), Err(DispatchError::BadOrigin));
    assert_eq!(ensure_root(&Origin::Root), Ok(()));
    assert_eq!(ensure_root(&Origin::Signed(1)), Err(DispatchError::BadOrigin));
}

#[test]
fn resource_ids_tell_chains_and_identifiers_apart() {
    let a = derive_resource_id(1, b"token");
    let b = derive_resource_id(2, b"token");
    let c = derive_resource_id(1, b"tokem");
    assert_ne!(a, b);
    assert_ne!(a, c);
    assert_eq!(a, derive_resource_id(1, b"token"));
}
