//! The derivation functions against the host chain's own scheme.

use datanexus::addresses::{
    create_dataset_address, create_owner_address, get_access_address,
    get_associated_access_address, get_dataset_address, get_owner_address,
};
use solana_program::pubkey::Pubkey;

fn bytes32(fill: u8) -> Vec<u8> {
    vec![fill; 32]
}

#[test]
fn dataset_address_matches_host_derivation() {
    let pid = bytes32(1);
    let hash = bytes32(2);
    let pk = Pubkey::new_from_array([1u8; 32]);
    let expected = Pubkey::find_program_address(&[&[2u8; 32]], &pk).0;
    let got = get_dataset_address(&pid, &hash).unwrap();
    assert_eq!(got, expected.to_bytes().to_vec());
}

#[test]
fn owner_address_matches_host_derivation() {
    let pid = bytes32(1);
    let authority = bytes32(3);
    let pk = Pubkey::new_from_array([1u8; 32]);
    let expected = Pubkey::find_program_address(&[b"owner", &[3u8; 32]], &pk).0;
    let got = get_owner_address(&pid, &authority).unwrap();
    assert_eq!(got, expected.to_bytes().to_vec());
}

#[test]
fn create_matches_host_validating_derivation() {
    let pid = bytes32(1);
    let authority = bytes32(3);
    let pk = Pubkey::new_from_array([1u8; 32]);
    let host = Pubkey::create_program_address(&[b"owner", &[3u8; 32]], &pk);
    let got = create_owner_address(&pid, &authority);
    match (host, &got) {
        (Ok(a), Some(b)) => assert_eq!(&a.to_bytes().to_vec(), b),
        (Err(_), None) => {}
        _ => panic!("validating derivation disagrees with the host scheme"),
    }
    let host = Pubkey::create_program_address(&[&[2u8; 32]], &pk);
    let got = create_dataset_address(&pid, &bytes32(2));
    match (host, &got) {
        (Ok(a), Some(b)) => assert_eq!(&a.to_bytes().to_vec(), b),
        (Err(_), None) => {}
        _ => panic!("validating derivation disagrees with the host scheme"),
    }
}

#[test]
fn derivation_is_deterministic_and_role_separated() {
    let pid = bytes32(1);
    let authority = bytes32(3);
    let a = get_owner_address(&pid, &authority).unwrap();
    let b = get_owner_address(&pid, &authority).unwrap();
    assert_eq!(a, b);
    // The two index roles of one identity live at different addresses.
    let c = get_access_address(&pid, &authority).unwrap();
    assert_ne!(a, c);
    // A derived address is not any of its seeds.
    assert_ne!(a, authority);
    // Another identity gets another address.
    let d = get_owner_address(&pid, &bytes32(4)).unwrap();
    assert_ne!(a, d);
}

#[test]
fn associated_access_address_depends_on_both_seeds() {
    let pid = bytes32(1);
    let dataset = get_dataset_address(&pid, &bytes32(2)).unwrap();
    let a = get_associated_access_address(&pid, &bytes32(3), &dataset).unwrap();
    let b = get_associated_access_address(&pid, &bytes32(4), &dataset).unwrap();
    assert_ne!(a, b);
    let other_dataset = get_dataset_address(&pid, &bytes32(5)).unwrap();
    let c = get_associated_access_address(&pid, &bytes32(3), &other_dataset).unwrap();
    assert_ne!(a, c);
}
