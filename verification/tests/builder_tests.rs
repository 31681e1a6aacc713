//! The instruction builders against the wire codec and the processor's
//! account orders.

use datanexus::instruction::{
    init_account, purchase_access, set_data_params, share_access, AccountType,
    DataNexusInstruction, Params,
};
use datanexus::error::DataNexusError;

fn b32(fill: u8) -> Vec<u8> {
    vec![fill; 32]
}

#[test]
fn init_account_builds_index_kinds() {
    let pid = b32(1);
    let authority = b32(3);
    let new_account = b32(5);
    let ix = init_account(&pid, None, &authority, &new_account, None,
        &AccountType::DatasetIndex)
        .unwrap();
    assert_eq!(ix.program_id, pid);
    assert_eq!(ix.accounts.len(), 3);
    assert_eq!(ix.accounts[0].pubkey, authority);
    assert!(ix.accounts[0].is_signer);
    assert_eq!(ix.accounts[2].pubkey, new_account);
    assert!(matches!(
        DataNexusInstruction::unpack(&ix.data),
        Ok(DataNexusInstruction::InitAccount(AccountType::DatasetIndex))
    ));

    let payer = b32(6);
    let ix = init_account(&pid, Some(&payer), &authority, &new_account, None,
        &AccountType::AccessIndex)
        .unwrap();
    assert_eq!(ix.accounts[0].pubkey, payer);
    assert!(matches!(
        DataNexusInstruction::unpack(&ix.data),
        Ok(DataNexusInstruction::InitAccount(AccountType::AccessIndex))
    ));
}

#[test]
fn init_account_builds_record_kinds() {
    let pid = b32(1);
    let hash = b32(2);
    let authority = b32(3);
    let index_account = b32(4);
    let new_account = b32(5);
    let ix = init_account(&pid, None, &authority, &new_account, Some(&index_account),
        &AccountType::Dataset(hash.clone()))
        .unwrap();
    assert_eq!(ix.accounts.len(), 3);
    assert_eq!(ix.accounts[0].pubkey, authority);
    assert_eq!(ix.accounts[1].pubkey, index_account);
    assert_eq!(ix.accounts[2].pubkey, new_account);
    match DataNexusInstruction::unpack(&ix.data).unwrap() {
        DataNexusInstruction::InitAccount(AccountType::Dataset(h)) => assert_eq!(h, hash),
        _ => panic!("wrong variant"),
    }

    // The record kinds require the index page their address joins.
    let r = init_account(&pid, None, &authority, &new_account, None,
        &AccountType::Dataset(hash.clone()));
    assert!(matches!(r, Err(DataNexusError::InvalidInstruction)));

    let payer = b32(6);
    let ix = init_account(&pid, Some(&payer), &authority, &new_account, Some(&index_account),
        &AccountType::Access(hash.clone()))
        .unwrap();
    assert_eq!(ix.accounts.len(), 4);
    assert_eq!(ix.accounts[0].pubkey, payer);
    assert_eq!(ix.accounts[1].pubkey, authority);
    assert_eq!(ix.accounts[2].pubkey, index_account);
    assert_eq!(ix.accounts[3].pubkey, new_account);
}

#[test]
fn set_data_params_builder_packs_selection() {
    let pid = b32(1);
    let hash = b32(2);
    let ix = set_data_params(&pid, &b32(3), &b32(4), &hash, Params::ShareLimit(7)).unwrap();
    assert_eq!(ix.accounts.len(), 2);
    assert!(ix.accounts[0].is_signer);
    match DataNexusInstruction::unpack(&ix.data).unwrap() {
        DataNexusInstruction::SetDataParams { hash: h, params: Params::ShareLimit(l) } => {
            assert_eq!(h, hash);
            assert_eq!(l, 7);
        }
        _ => panic!("wrong variant"),
    }
}

#[test]
fn purchase_access_builder_matches_processor_order() {
    let pid = b32(1);
    let hash = b32(2);
    let ix = purchase_access(&pid, &b32(3), &b32(4), &b32(5), &b32(6), &b32(7), &b32(8), &hash,
        500)
        .unwrap();
    assert_eq!(ix.accounts.len(), 6);
    assert!(ix.accounts[0].is_signer);
    assert!(!ix.accounts[4].is_writable);
    assert!(!ix.accounts[5].is_writable);
    match DataNexusInstruction::unpack(&ix.data).unwrap() {
        DataNexusInstruction::PurchaseAccess { hash: h, amount } => {
            assert_eq!(h, hash);
            assert_eq!(amount, 500);
        }
        _ => panic!("wrong variant"),
    }
}

#[test]
fn share_access_builder_matches_processor_order() {
    let pid = b32(1);
    let hash = b32(2);
    let ix = share_access(&pid, &b32(3), &b32(4), &b32(5), &b32(6), &b32(7), &hash).unwrap();
    assert_eq!(ix.accounts.len(), 5);
    assert!(ix.accounts[0].is_signer);
    assert!(!ix.accounts[2].is_signer);
    match DataNexusInstruction::unpack(&ix.data).unwrap() {
        DataNexusInstruction::ShareAccess { hash: h } => assert_eq!(h, hash),
        _ => panic!("wrong variant"),
    }
}
