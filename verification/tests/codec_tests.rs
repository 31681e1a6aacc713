//! Round-trip and rejection tests for the record and instruction codecs.

use datanexus::instruction::{AccountType, DataNexusInstruction, Params};
use datanexus::state::{AccessGrant, AccountIndex, AccountState, GRANT_LEN, INDEX_LEN, STATE_LEN};
use datanexus::error::DataNexusError;

fn bytes32(fill: u8) -> Vec<u8> {
    vec![fill; 32]
}

#[test]
fn state_round_trip_all_fields_set() {
    let st = AccountState {
        is_initialized: true,
        owner: bytes32(3),
        hash: bytes32(2),
        key: Some(bytes32(9)),
        value: Some(500),
        share_limit: Some(7),
        reference: Some(bytes32(4)),
    };
    let buf = st.pack();
    assert_eq!(buf.len(), STATE_LEN);
    let back = AccountState::unpack_from_slice(&buf).unwrap();
    assert!(back.is_initialized);
    assert_eq!(back.owner, bytes32(3));
    assert_eq!(back.hash, bytes32(2));
    assert_eq!(back.key, Some(bytes32(9)));
    assert_eq!(back.value, Some(500));
    assert_eq!(back.share_limit, Some(7));
    assert_eq!(back.reference, Some(bytes32(4)));
}

#[test]
fn state_round_trip_absent_fields() {
    let st = AccountState {
        is_initialized: false,
        owner: bytes32(1),
        hash: bytes32(2),
        key: None,
        value: None,
        share_limit: None,
        reference: None,
    };
    let buf = st.pack();
    assert_eq!(buf.len(), STATE_LEN);
    let back = AccountState::unpack_from_slice(&buf).unwrap();
    assert!(!back.is_initialized);
    assert_eq!(back.key, None);
    assert_eq!(back.value, None);
    assert_eq!(back.share_limit, None);
    assert_eq!(back.reference, None);
}

#[test]
fn state_layout_offsets_are_fixed() {
    let st = AccountState {
        is_initialized: true,
        owner: bytes32(0xAA),
        hash: bytes32(0xBB),
        key: Some(bytes32(0xCC)),
        value: Some(0x0102030405060708),
        share_limit: Some(0x1122),
        reference: Some(bytes32(0xDD)),
    };
    let buf = st.pack();
    assert_eq!(buf[0], 1);
    assert_eq!(&buf[1..33], &[0xAA; 32]);
    assert_eq!(&buf[33..65], &[0xBB; 32]);
    assert_eq!(&buf[65..97], &[0xCC; 32]);
    // little-endian price
    assert_eq!(&buf[97..105], &[8, 7, 6, 5, 4, 3, 2, 1]);
    // little-endian share limit
    assert_eq!(&buf[105..107], &[0x22, 0x11]);
    assert_eq!(&buf[107..139], &[0xDD; 32]);
}

#[test]
fn state_rejects_bad_buffers() {
    assert!(matches!(
        AccountState::unpack_from_slice(&[0u8; 10]),
        Err(DataNexusError::InvalidAccountData)
    ));
    let mut buf = vec![0u8; STATE_LEN];
    buf[0] = 2;
    assert!(matches!(
        AccountState::unpack_from_slice(&buf),
        Err(DataNexusError::InvalidAccountData)
    ));
}

#[test]
fn grant_round_trip() {
    let g = AccessGrant {
        is_initialized: true,
        hash: bytes32(2),
        key: bytes32(9),
        granted_by: Some(bytes32(5)),
        share_limit: 3,
    };
    let buf = g.pack();
    assert_eq!(buf.len(), GRANT_LEN);
    let back = AccessGrant::unpack_from_slice(&buf).unwrap();
    assert!(back.is_initialized);
    assert_eq!(back.hash, bytes32(2));
    assert_eq!(back.key, bytes32(9));
    assert_eq!(back.granted_by, Some(bytes32(5)));
    assert_eq!(back.share_limit, 3);

    // A direct purchase leaves the granter absent: the zero sentinel.
    let direct = AccessGrant {
        is_initialized: true,
        hash: bytes32(2),
        key: bytes32(9),
        granted_by: None,
        share_limit: 0,
    };
    let buf = direct.pack();
    assert_eq!(&buf[65..97], &[0u8; 32]);
    let back = AccessGrant::unpack_from_slice(&buf).unwrap();
    assert_eq!(back.granted_by, None);
    assert_eq!(back.share_limit, 0);
}

#[test]
fn index_round_trip() {
    let mut slots: Vec<Option<Vec<u8>>> = vec![None; 128];
    slots[0] = Some(bytes32(7));
    slots[1] = Some(bytes32(8));
    let idx = AccountIndex { is_initialized: true, pointer: Some(bytes32(6)), datasets: slots };
    let buf = idx.pack();
    assert_eq!(buf.len(), INDEX_LEN);
    let back = AccountIndex::unpack_from_slice(&buf).unwrap();
    assert!(back.is_initialized);
    assert_eq!(back.pointer, Some(bytes32(6)));
    assert_eq!(back.datasets.len(), 128);
    assert_eq!(back.datasets[0], Some(bytes32(7)));
    assert_eq!(back.datasets[1], Some(bytes32(8)));
    assert_eq!(back.datasets[2], None);
    assert_eq!(back.datasets[127], None);
}

#[test]
fn index_rejects_bad_buffers() {
    assert!(matches!(
        AccountIndex::unpack_from_slice(&[1u8; 100]),
        Err(DataNexusError::InvalidAccountData)
    ));
    let mut buf = vec![0u8; INDEX_LEN];
    buf[0] = 9;
    assert!(matches!(
        AccountIndex::unpack_from_slice(&buf),
        Err(DataNexusError::InvalidAccountData)
    ));
}

#[test]
fn instruction_round_trip_init_kinds() {
    let cases = [
        AccountType::DatasetIndex,
        AccountType::AccessIndex,
        AccountType::Dataset(bytes32(2)),
        AccountType::Access(bytes32(3)),
    ];
    for t in cases {
        let ix = DataNexusInstruction::InitAccount(t);
        let buf = ix.pack();
        assert_eq!(buf[0], 0);
        let back = DataNexusInstruction::unpack(&buf).unwrap();
        match (&ix, &back) {
            (
                DataNexusInstruction::InitAccount(AccountType::DatasetIndex),
                DataNexusInstruction::InitAccount(AccountType::DatasetIndex),
            ) => {}
            (
                DataNexusInstruction::InitAccount(AccountType::AccessIndex),
                DataNexusInstruction::InitAccount(AccountType::AccessIndex),
            ) => {}
            (
                DataNexusInstruction::InitAccount(AccountType::Dataset(a)),
                DataNexusInstruction::InitAccount(AccountType::Dataset(b)),
            ) => assert_eq!(a, b),
            (
                DataNexusInstruction::InitAccount(AccountType::Access(a)),
                DataNexusInstruction::InitAccount(AccountType::Access(b)),
            ) => assert_eq!(a, b),
            _ => panic!("variant changed under the round trip"),
        }
    }
}

#[test]
fn instruction_round_trip_set_params() {
    let ix = DataNexusInstruction::SetDataParams {
        hash: bytes32(2),
        params: Params::Init(bytes32(9), 500, 7, Some(bytes32(4))),
    };
    let buf = ix.pack();
    assert_eq!(buf.len(), 108);
    assert_eq!(buf[0], 1);
    assert_eq!(buf[33], 0);
    match DataNexusInstruction::unpack(&buf).unwrap() {
        DataNexusInstruction::SetDataParams { hash, params: Params::Init(k, v, l, r) } => {
            assert_eq!(hash, bytes32(2));
            assert_eq!(k, bytes32(9));
            assert_eq!(v, 500);
            assert_eq!(l, 7);
            assert_eq!(r, Some(bytes32(4)));
        }
        _ => panic!("wrong variant"),
    }

    // An absent reference rides as the zero sentinel.
    let ix = DataNexusInstruction::SetDataParams {
        hash: bytes32(2),
        params: Params::Init(bytes32(9), 500, 7, None),
    };
    let buf = ix.pack();
    assert_eq!(&buf[76..108], &[0u8; 32]);
    match DataNexusInstruction::unpack(&buf).unwrap() {
        DataNexusInstruction::SetDataParams { params: Params::Init(_, _, _, r), .. } => {
            assert_eq!(r, None);
        }
        _ => panic!("wrong variant"),
    }

    for (params, ptag) in [
        (Params::Key(bytes32(9)), 1u8),
        (Params::Value(123456789), 2),
        (Params::ShareLimit(42), 3),
        (Params::ReferenceData(bytes32(4)), 4),
    ] {
        let buf = DataNexusInstruction::SetDataParams { hash: bytes32(2), params }.pack();
        assert_eq!(buf[33], ptag);
        match DataNexusInstruction::unpack(&buf).unwrap() {
            DataNexusInstruction::SetDataParams { hash, params } => {
                assert_eq!(hash, bytes32(2));
                match (ptag, params) {
                    (1, Params::Key(k)) => assert_eq!(k, bytes32(9)),
                    (2, Params::Value(v)) => assert_eq!(v, 123456789),
                    (3, Params::ShareLimit(l)) => assert_eq!(l, 42),
                    (4, Params::ReferenceData(d)) => assert_eq!(d, bytes32(4)),
                    _ => panic!("wrong params variant"),
                }
            }
            _ => panic!("wrong variant"),
        }
    }
}

#[test]
fn instruction_purchase_wire_layout() {
    let ix = DataNexusInstruction::PurchaseAccess { hash: bytes32(2), amount: 500 };
    let buf = ix.pack();
    assert_eq!(buf.len(), 41);
    assert_eq!(buf[0], 2);
    assert_eq!(&buf[1..33], &[2u8; 32]);
    assert_eq!(&buf[33..41], &[244, 1, 0, 0, 0, 0, 0, 0]);
    match DataNexusInstruction::unpack(&buf).unwrap() {
        DataNexusInstruction::PurchaseAccess { hash, amount } => {
            assert_eq!(hash, bytes32(2));
            assert_eq!(amount, 500);
        }
        _ => panic!("wrong variant"),
    }
}

#[test]
fn instruction_share_wire_layout() {
    let ix = DataNexusInstruction::ShareAccess { hash: bytes32(2) };
    let buf = ix.pack();
    assert_eq!(buf.len(), 33);
    assert_eq!(buf[0], 3);
    match DataNexusInstruction::unpack(&buf).unwrap() {
        DataNexusInstruction::ShareAccess { hash } => assert_eq!(hash, bytes32(2)),
        _ => panic!("wrong variant"),
    }
}

#[test]
fn unpack_rejects_bad_buffers() {
    // empty
    assert!(matches!(
        DataNexusInstruction::unpack(&[]),
        Err(DataNexusError::InvalidInstruction)
    ));
    // unknown discriminator
    assert!(matches!(
        DataNexusInstruction::unpack(&[9, 0, 0]),
        Err(DataNexusError::InvalidInstruction)
    ));
    // unknown init sub-tag
    assert!(matches!(
        DataNexusInstruction::unpack(&[0, 7]),
        Err(DataNexusError::InvalidInstruction)
    ));
    // truncated hash payloads
    assert!(matches!(
        DataNexusInstruction::unpack(&[0, 2, 1, 2, 3]),
        Err(DataNexusError::InvalidInstruction)
    ));
    assert!(matches!(
        DataNexusInstruction::unpack(&[3; 20]),
        Err(DataNexusError::InvalidInstruction)
    ));
    // purchase without its amount
    let mut short = vec![2u8];
    short.extend_from_slice(&[2u8; 32]);
    assert!(matches!(
        DataNexusInstruction::unpack(&short),
        Err(DataNexusError::InvalidInstruction)
    ));
    // unknown params sub-tag
    let mut bad = vec![1u8];
    bad.extend_from_slice(&[2u8; 32]);
    bad.push(9);
    bad.extend_from_slice(&[0u8; 74]);
    assert!(matches!(
        DataNexusInstruction::unpack(&bad),
        Err(DataNexusError::InvalidInstruction)
    ));
}

#[test]
fn error_codes_are_stable() {
    assert_eq!(DataNexusError::InvalidInstruction.code(), 0);
    assert_eq!(DataNexusError::InvalidAccountData.code(), 1);
    assert_eq!(DataNexusError::Unauthorized.code(), 2);
    assert_eq!(DataNexusError::ArithmeticError.code(), 3);
    assert_eq!(DataNexusError::PaymentFailed.code(), 4);
}
