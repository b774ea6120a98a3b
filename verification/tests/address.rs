use fvm::account_actor::constructor_params;
use fvm::address::{Address, Protocol};

#[test]
fn protocols_and_identifiers() {
    assert_eq!(Address::new_id(5).protocol(), Protocol::ID);
    assert_eq!(Address::Secp256k1([0; 20]).protocol(), Protocol::Secp256k1);
    assert_eq!(Address::Actor([0; 20]).protocol(), Protocol::Actor);
    assert_eq!(Address::Bls([0; 48]).protocol(), Protocol::BLS);
    assert_eq!(Address::new_id(5).id(), Some(5));
    assert_eq!(Address::Secp256k1([0; 20]).id(), None);
    assert_eq!(Address::Bls([0; 48]).id(), None);
}

#[test]
fn zero_bls_address() {
    assert!(Address::Bls([0; 48]).is_bls_zero_address());
    let mut key = [0u8; 48];
    key[47] = 1;
    assert!(!Address::Bls(key).is_bls_zero_address());
    assert!(!Address::Secp256k1([0; 20]).is_bls_zero_address());
    assert!(!Address::Id(0).is_bls_zero_address());
}

#[test]
fn same_compares_form_and_payload() {
    assert!(Address::Id(1).same(&Address::Id(1)));
    assert!(!Address::Id(1).same(&Address::Id(2)));
    assert!(Address::Secp256k1([1; 20]).same(&Address::Secp256k1([1; 20])));
    assert!(!Address::Secp256k1([1; 20]).same(&Address::Actor([1; 20])));
    let mut key = [1u8; 48];
    assert!(Address::Bls(key).same(&Address::Bls([1; 48])));
    key[47] = 2;
    assert!(!Address::Bls(key).same(&Address::Bls([1; 48])));
}

#[test]
fn byte_forms() {
    assert_eq!(Address::Id(0).to_bytes(), vec![0, 0]);
    assert_eq!(Address::Id(1).to_bytes(), vec![0, 1]);
    assert_eq!(Address::Id(127).to_bytes(), vec![0, 127]);
    assert_eq!(Address::Id(128).to_bytes(), vec![0, 0x80, 1]);
    assert_eq!(Address::Id(1024).to_bytes(), vec![0, 0x80, 8]);
    assert_eq!(
        Address::Id(u64::MAX).to_bytes(),
        vec![0, 0xff, 0xff, 0xff, 0xff, 0xff, 0xff, 0xff, 0xff, 0xff, 1]
    );
    let mut secp = vec![1u8];
    secp.extend_from_slice(&[7; 20]);
    assert_eq!(Address::Secp256k1([7; 20]).to_bytes(), secp);
    let mut actor = vec![2u8];
    actor.extend_from_slice(&[8; 20]);
    assert_eq!(Address::Actor([8; 20]).to_bytes(), actor);
    let mut bls = vec![3u8];
    bls.extend_from_slice(&[9; 48]);
    assert_eq!(Address::Bls([9; 48]).to_bytes(), bls);
}

#[test]
fn constructor_parameters_are_a_byte_string() {
    let mut secp = vec![0x55, 1];
    secp.extend_from_slice(&[7; 20]);
    assert_eq!(constructor_params(&Address::Secp256k1([7; 20])), secp);
    let mut bls = vec![0x58, 49, 3];
    bls.extend_from_slice(&[9; 48]);
    assert_eq!(constructor_params(&Address::Bls([9; 48])), bls);
    assert_eq!(constructor_params(&Address::Id(1)), vec![0x42, 0, 1]);
}
