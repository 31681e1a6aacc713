//! The instruction processor's state machine on concrete ledgers.

use datanexus::addresses::{
    get_access_address, get_associated_access_address, get_dataset_address, get_owner_address,
};
use datanexus::error::DataNexusError;
use datanexus::instruction::{DataNexusInstruction, Params};
use datanexus::processor::{Account, Processor};
use datanexus::state::{AccessGrant, AccountFlag, AccountIndex, AccountState};

fn b32(fill: u8) -> Vec<u8> {
    vec![fill; 32]
}

fn acct(key: Vec<u8>, is_signer: bool, data: Vec<u8>) -> Account {
    Account { key, is_signer, data }
}

fn empty_index_bytes() -> Vec<u8> {
    AccountIndex { is_initialized: true, pointer: None, datasets: vec![None; 128] }.pack()
}

fn fresh_grant_bytes(hash: &[u8]) -> Vec<u8> {
    AccessGrant {
        is_initialized: true,
        hash: hash.to_vec(),
        key: vec![0u8; 32],
        granted_by: None,
        share_limit: 0,
    }
    .pack()
}

#[test]
fn init_user_account_creates_fresh_index() {
    let pid = b32(1);
    let authority = b32(3);
    let index_addr = get_owner_address(&pid, &authority).unwrap();
    let payer = acct(authority.clone(), true, Vec::new());
    let auth = acct(authority.clone(), false, Vec::new());
    let user = acct(index_addr, false, Vec::new());
    let bytes =
        Processor::process_init_user_account(&pid, AccountFlag::Dataset, &payer, &auth, &user)
            .unwrap();
    let idx = AccountIndex::unpack_from_slice(&bytes).unwrap();
    assert!(idx.is_initialized);
    assert_eq!(idx.pointer, None);
    assert!(idx.datasets.iter().all(|s| s.is_none()));

    // Creating it again over live data is rejected.
    let relived = acct(user.key.clone(), false, bytes);
    let r = Processor::process_init_user_account(&pid, AccountFlag::Dataset, &payer, &auth,
        &relived);
    assert!(matches!(r, Err(DataNexusError::InvalidAccountData)));

    // A substituted account at the wrong address is rejected.
    let wrong = acct(b32(9), false, Vec::new());
    let r = Processor::process_init_user_account(&pid, AccountFlag::Dataset, &payer, &auth,
        &wrong);
    assert!(matches!(r, Err(DataNexusError::Unauthorized)));

    // Without the payer's signature nothing is created.
    let unsigned = acct(authority.clone(), false, Vec::new());
    let user = acct(get_owner_address(&pid, &authority).unwrap(), false, Vec::new());
    let r = Processor::process_init_user_account(&pid, AccountFlag::Dataset, &unsigned, &auth,
        &user);
    assert!(matches!(r, Err(DataNexusError::Unauthorized)));
}

#[test]
fn set_params_rejects_non_owner_and_leaves_bytes() {
    let pid = b32(1);
    let hash = b32(2);
    let owner = b32(3);
    let intruder = b32(4);
    let dataset_addr = get_dataset_address(&pid, &hash).unwrap();
    let record = AccountState {
        is_initialized: true,
        owner: owner.clone(),
        hash: hash.clone(),
        key: None,
        value: Some(500),
        share_limit: None,
        reference: None,
    };
    let bytes = record.pack();
    let dataset = acct(dataset_addr, false, bytes.clone());
    let authority = acct(intruder, true, Vec::new());
    let r = Processor::process_set_params(&pid, &authority, &dataset, &hash,
        &Params::Key(b32(9)));
    assert!(matches!(r, Err(DataNexusError::Unauthorized)));
    // No new image was produced: the stored bytes are exactly as before.
    assert_eq!(dataset.data, bytes);
    let back = AccountState::unpack_from_slice(&dataset.data).unwrap();
    assert_eq!(back.owner, owner);
    assert_eq!(back.key, None);
    assert_eq!(back.value, Some(500));
}

#[test]
fn set_params_updates_one_field_only() {
    let pid = b32(1);
    let hash = b32(2);
    let owner = b32(3);
    let dataset_addr = get_dataset_address(&pid, &hash).unwrap();
    let record = AccountState {
        is_initialized: true,
        owner: owner.clone(),
        hash: hash.clone(),
        key: None,
        value: Some(500),
        share_limit: Some(3),
        reference: None,
    };
    let dataset = acct(dataset_addr, false, record.pack());
    let authority = acct(owner.clone(), true, Vec::new());
    let bytes = Processor::process_set_params(&pid, &authority, &dataset, &hash,
        &Params::Key(b32(9)))
        .unwrap();
    let back = AccountState::unpack_from_slice(&bytes).unwrap();
    assert_eq!(back.key, Some(b32(9)));
    assert_eq!(back.owner, owner);
    assert_eq!(back.hash, hash);
    assert_eq!(back.value, Some(500));
    assert_eq!(back.share_limit, Some(3));
    assert_eq!(back.reference, None);
}

#[test]
fn set_params_full_tuple() {
    let pid = b32(1);
    let hash = b32(2);
    let owner = b32(3);
    let dataset_addr = get_dataset_address(&pid, &hash).unwrap();
    let record = AccountState {
        is_initialized: true,
        owner: owner.clone(),
        hash: hash.clone(),
        key: None,
        value: None,
        share_limit: None,
        reference: None,
    };
    let dataset = acct(dataset_addr, false, record.pack());
    let authority = acct(owner.clone(), true, Vec::new());
    let bytes = Processor::process_set_params(&pid, &authority, &dataset, &hash,
        &Params::Init(b32(9), 500, 7, Some(b32(4))))
        .unwrap();
    let back = AccountState::unpack_from_slice(&bytes).unwrap();
    assert_eq!(back.key, Some(b32(9)));
    assert_eq!(back.value, Some(500));
    assert_eq!(back.share_limit, Some(7));
    assert_eq!(back.reference, Some(b32(4)));
}

#[test]
fn set_params_rejects_sentinel_values() {
    let pid = b32(1);
    let hash = b32(2);
    let owner = b32(3);
    let dataset_addr = get_dataset_address(&pid, &hash).unwrap();
    let record = AccountState {
        is_initialized: true,
        owner: owner.clone(),
        hash: hash.clone(),
        key: Some(b32(9)),
        value: Some(500),
        share_limit: Some(3),
        reference: None,
    };
    let dataset = acct(dataset_addr, false, record.pack());
    let authority = acct(owner.clone(), true, Vec::new());
    // A zero price is the layout's absent sentinel: writing it would
    // silently reset the field, so the write is refused instead.
    for params in [Params::Value(0), Params::ShareLimit(0), Params::Key(vec![0u8; 32])] {
        let r = Processor::process_set_params(&pid, &authority, &dataset, &hash, &params);
        assert!(matches!(r, Err(DataNexusError::InvalidInstruction)));
    }
}

#[test]
fn share_limit_exhaustion() {
    let pid = b32(1);
    let hash = b32(2);
    let sharer = b32(3);
    let recipient = b32(4);
    let key = b32(9);
    let dataset_addr = get_dataset_address(&pid, &hash).unwrap();
    let sharer_grant_addr = get_associated_access_address(&pid, &sharer, &dataset_addr).unwrap();
    let recipient_grant_addr =
        get_associated_access_address(&pid, &recipient, &dataset_addr).unwrap();

    let mut sharer_bytes = AccessGrant {
        is_initialized: true,
        hash: hash.clone(),
        key: key.clone(),
        granted_by: None,
        share_limit: 2,
    }
    .pack();
    let recipient_bytes = fresh_grant_bytes(&hash);
    let dataset = acct(dataset_addr.clone(), false, Vec::new());

    // Two consecutive shares succeed, decrementing 2 -> 1 -> 0.
    for expected_left in [1u64, 0u64] {
        let user = acct(sharer.clone(), true, Vec::new());
        let user_grant = acct(sharer_grant_addr.clone(), false, sharer_bytes.clone());
        let rec_auth = acct(recipient.clone(), false, Vec::new());
        let rec_grant = acct(recipient_grant_addr.clone(), false, recipient_bytes.clone());
        let (s_bytes, r_bytes) =
            Processor::process_share_access(&pid, &hash, &user, &user_grant, &rec_auth,
                &rec_grant, &dataset)
                .unwrap();
        let s = AccessGrant::unpack_from_slice(&s_bytes).unwrap();
        assert_eq!(s.share_limit, expected_left);
        assert_eq!(s.key, key);
        assert_eq!(s.granted_by, None);
        let r = AccessGrant::unpack_from_slice(&r_bytes).unwrap();
        assert_eq!(r.share_limit, 0);
        assert_eq!(r.key, key);
        assert_eq!(r.granted_by, Some(sharer.clone()));
        sharer_bytes = s_bytes;
    }

    // The third share fails the guarded decrement and changes nothing.
    let user = acct(sharer.clone(), true, Vec::new());
    let user_grant = acct(sharer_grant_addr.clone(), false, sharer_bytes.clone());
    let rec_auth = acct(recipient.clone(), false, Vec::new());
    let rec_grant = acct(recipient_grant_addr.clone(), false, recipient_bytes.clone());
    let r = Processor::process_share_access(&pid, &hash, &user, &user_grant, &rec_auth,
        &rec_grant, &dataset);
    assert!(matches!(r, Err(DataNexusError::ArithmeticError)));
    let s = AccessGrant::unpack_from_slice(&sharer_bytes).unwrap();
    assert_eq!(s.share_limit, 0);

    // A received grant cannot itself be re-shared: its budget is zero.
}

#[test]
fn purchase_end_to_end() {
    let pid = b32(1);
    let hash = b32(2);
    let owner = b32(3);
    let buyer = b32(4);
    let key = b32(9);
    let dataset_addr = get_dataset_address(&pid, &hash).unwrap();
    let grant_addr = get_associated_access_address(&pid, &buyer, &dataset_addr).unwrap();
    let dataset_bytes = AccountState {
        is_initialized: true,
        owner: owner.clone(),
        hash: hash.clone(),
        key: Some(key.clone()),
        value: Some(500),
        share_limit: Some(3),
        reference: None,
    }
    .pack();
    let token_program_key = spl_token::ID.to_bytes().to_vec();

    let user = acct(buyer.clone(), true, Vec::new());
    let user_grant = acct(grant_addr.clone(), false, fresh_grant_bytes(&hash));
    let user_token = acct(b32(0x11), false, Vec::new());
    let owner_token = acct(b32(0x12), false, Vec::new());
    let dataset = acct(dataset_addr.clone(), false, dataset_bytes.clone());
    let token_program = acct(token_program_key.clone(), false, Vec::new());

    // A successful transfer seeds the grant from the dataset record.
    let (grant_bytes, order) = Processor::process_purchase_access(&pid, &hash, 500, &user,
        &user_grant, &user_token, &owner_token, &dataset, &token_program, true)
        .unwrap();
    let g = AccessGrant::unpack_from_slice(&grant_bytes).unwrap();
    assert!(g.is_initialized);
    assert_eq!(g.hash, hash);
    assert_eq!(g.key, key);
    assert_eq!(g.granted_by, None);
    assert_eq!(g.share_limit, 3);
    assert_eq!(order.source, b32(0x11));
    assert_eq!(order.destination, b32(0x12));
    assert_eq!(order.authority, buyer);
    assert_eq!(order.amount, 500);

    // A failed transfer creates no grant.
    let r = Processor::process_purchase_access(&pid, &hash, 500, &user, &user_grant,
        &user_token, &owner_token, &dataset, &token_program, false);
    assert!(matches!(r, Err(DataNexusError::PaymentFailed)));

    // A substituted token program is rejected outright.
    let bogus = acct(b32(7), false, Vec::new());
    let r = Processor::process_purchase_access(&pid, &hash, 500, &user, &user_grant,
        &user_token, &owner_token, &dataset, &bogus, true);
    assert!(matches!(r, Err(DataNexusError::Unauthorized)));
}

#[test]
fn init_dataset_account_appends_to_index() {
    let pid = b32(1);
    let hash = b32(2);
    let owner = b32(3);
    let dataset_addr = get_dataset_address(&pid, &hash).unwrap();
    let index_addr = get_owner_address(&pid, &owner).unwrap();
    let authority = acct(owner.clone(), true, Vec::new());
    let index = acct(index_addr, false, empty_index_bytes());
    let dataset = acct(dataset_addr.clone(), false, Vec::new());
    let eff = Processor::process_init_dataset_account(&pid, &hash, &authority, &index, &dataset,
        None)
        .unwrap();
    let record = AccountState::unpack_from_slice(&eff.record_data).unwrap();
    assert!(record.is_initialized);
    assert_eq!(record.owner, owner);
    assert_eq!(record.hash, hash);
    assert_eq!(record.key, None);
    assert_eq!(record.value, None);
    let idx = AccountIndex::unpack_from_slice(&eff.index_data).unwrap();
    assert_eq!(idx.datasets[0], Some(dataset_addr));
    assert_eq!(idx.datasets[1], None);
    assert!(eff.continuation_data.is_none());
}

#[test]
fn init_dataset_account_chains_when_full() {
    let pid = b32(1);
    let hash = b32(2);
    let owner = b32(3);
    let dataset_addr = get_dataset_address(&pid, &hash).unwrap();
    let index_addr = get_owner_address(&pid, &owner).unwrap();
    let mut slots: Vec<Option<Vec<u8>>> = Vec::new();
    for i in 0..128u32 {
        let mut e = vec![0u8; 32];
        e[0] = (i & 0xff) as u8;
        e[31] = 7;
        slots.push(Some(e));
    }
    let full_bytes =
        AccountIndex { is_initialized: true, pointer: None, datasets: slots }.pack();
    let authority = acct(owner.clone(), true, Vec::new());
    let index = acct(index_addr.clone(), false, full_bytes.clone());
    let dataset = acct(dataset_addr.clone(), false, Vec::new());

    // A full page with no continuation account cannot take the entry.
    let r = Processor::process_init_dataset_account(&pid, &hash, &authority, &index, &dataset,
        None);
    assert!(matches!(r, Err(DataNexusError::InvalidAccountData)));

    // With a fresh continuation account, the page chains instead.
    let cont_addr = b32(0x42);
    let continuation = acct(cont_addr.clone(), false, Vec::new());
    let eff = Processor::process_init_dataset_account(&pid, &hash, &authority, &index, &dataset,
        Some(&continuation))
        .unwrap();
    let idx = AccountIndex::unpack_from_slice(&eff.index_data).unwrap();
    assert_eq!(idx.pointer, Some(cont_addr));
    let cont = AccountIndex::unpack_from_slice(&eff.continuation_data.unwrap()).unwrap();
    assert!(cont.is_initialized);
    assert_eq!(cont.pointer, None);
    assert_eq!(cont.datasets[0], Some(dataset_addr));
    assert_eq!(cont.datasets[1], None);
}

#[test]
fn init_dataset_account_rejects_sparse_index() {
    let pid = b32(1);
    let hash = b32(2);
    let owner = b32(3);
    let dataset_addr = get_dataset_address(&pid, &hash).unwrap();
    let index_addr = get_owner_address(&pid, &owner).unwrap();
    // A hole in the slot prefix: live entries must be dense.
    let mut slots: Vec<Option<Vec<u8>>> = vec![None; 128];
    slots[1] = Some(b32(7));
    let sparse = AccountIndex { is_initialized: true, pointer: None, datasets: slots }.pack();
    let authority = acct(owner.clone(), true, Vec::new());
    let index = acct(index_addr, false, sparse);
    let dataset = acct(dataset_addr, false, Vec::new());
    let r = Processor::process_init_dataset_account(&pid, &hash, &authority, &index, &dataset,
        None);
    assert!(matches!(r, Err(DataNexusError::InvalidAccountData)));
}

#[test]
fn init_access_account_creates_zeroed_grant() {
    let pid = b32(1);
    let hash = b32(2);
    let holder = b32(4);
    let dataset_addr = get_dataset_address(&pid, &hash).unwrap();
    let grant_addr = get_associated_access_address(&pid, &holder, &dataset_addr).unwrap();
    let index_addr = get_access_address(&pid, &holder).unwrap();
    let payer = acct(b32(3), true, Vec::new());
    let authority = acct(holder.clone(), false, Vec::new());
    let index = acct(index_addr, false, empty_index_bytes());
    let grant = acct(grant_addr.clone(), false, Vec::new());
    let eff = Processor::process_init_access_account(&pid, &hash, &payer, &authority, &index,
        &grant, None)
        .unwrap();
    let g = AccessGrant::unpack_from_slice(&eff.record_data).unwrap();
    assert!(g.is_initialized);
    assert_eq!(g.hash, hash);
    assert_eq!(g.key, vec![0u8; 32]);
    assert_eq!(g.granted_by, None);
    assert_eq!(g.share_limit, 0);
    let idx = AccountIndex::unpack_from_slice(&eff.index_data).unwrap();
    assert_eq!(idx.datasets[0], Some(grant_addr));
}

#[test]
fn init_ops_reject_malformed_hash() {
    let pid = b32(1);
    let owner = b32(3);
    let short_hash = vec![2u8; 5];
    let index_addr = get_owner_address(&pid, &owner).unwrap();
    let authority = acct(owner.clone(), true, Vec::new());
    let index = acct(index_addr, false, empty_index_bytes());
    let dataset = acct(b32(6), false, Vec::new());
    let r = Processor::process_init_dataset_account(&pid, &short_hash, &authority, &index,
        &dataset, None);
    assert!(matches!(r, Err(DataNexusError::InvalidInstruction)));
}

#[test]
fn process_instruction_dispatches_and_orders_writes() {
    let pid = b32(1);
    let hash = b32(2);
    let owner = b32(3);
    let dataset_addr = get_dataset_address(&pid, &hash).unwrap();
    let record = AccountState {
        is_initialized: true,
        owner: owner.clone(),
        hash: hash.clone(),
        key: None,
        value: None,
        share_limit: None,
        reference: None,
    };
    let accounts = vec![
        acct(owner.clone(), true, Vec::new()),
        acct(dataset_addr, false, record.pack()),
    ];
    let data = DataNexusInstruction::SetDataParams {
        hash: hash.clone(),
        params: Params::Value(750),
    }
    .pack();
    let (writes, payment) =
        Processor::process_instruction(&pid, &accounts, &data, false).unwrap();
    assert!(payment.is_none());
    assert_eq!(writes.len(), 1);
    assert_eq!(writes[0].index, 1);
    let back = AccountState::unpack_from_slice(&writes[0].data).unwrap();
    assert_eq!(back.value, Some(750));

    // Undecodable instruction bytes fail before any account is touched.
    let r = Processor::process_instruction(&pid, &accounts, &[9, 9], false);
    assert!(matches!(r, Err(DataNexusError::InvalidInstruction)));

    // A short account list is rejected.
    let one = vec![acct(owner.clone(), true, Vec::new())];
    let r = Processor::process_instruction(&pid, &one, &data, false);
    assert!(matches!(r, Err(DataNexusError::InvalidAccountData)));
}

#[test]
fn process_instruction_purchase_produces_order() {
    let pid = b32(1);
    let hash = b32(2);
    let owner = b32(3);
    let buyer = b32(4);
    let dataset_addr = get_dataset_address(&pid, &hash).unwrap();
    let grant_addr = get_associated_access_address(&pid, &buyer, &dataset_addr).unwrap();
    let dataset_bytes = AccountState {
        is_initialized: true,
        owner: owner.clone(),
        hash: hash.clone(),
        key: Some(b32(9)),
        value: Some(500),
        share_limit: Some(1),
        reference: None,
    }
    .pack();
    let accounts = vec![
        acct(buyer.clone(), true, Vec::new()),
        acct(grant_addr, false, fresh_grant_bytes(&hash)),
        acct(b32(0x11), false, Vec::new()),
        acct(b32(0x12), false, Vec::new()),
        acct(dataset_addr, false, dataset_bytes),
        acct(spl_token::ID.to_bytes().to_vec(), false, Vec::new()),
    ];
    let data = DataNexusInstruction::PurchaseAccess { hash: hash.clone(), amount: 500 }.pack();
    let (writes, payment) = Processor::process_instruction(&pid, &accounts, &data, true).unwrap();
    assert_eq!(writes.len(), 1);
    assert_eq!(writes[0].index, 1);
    let order = payment.unwrap();
    assert_eq!(order.amount, 500);
    assert_eq!(order.authority, buyer);
}
