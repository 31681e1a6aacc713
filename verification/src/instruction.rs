//! The instruction set and its tag-prefixed wire codec.
//!
//! An instruction is one byte of discriminator followed by a payload of
//! fixed, variant-dependent length. Decoding rejects an empty buffer, an
//! unknown discriminator or sub-tag, and a buffer shorter than the
//! variant's required payload; trailing bytes beyond the payload are
//! ignored. Packing and unpacking are inverse on every representable
//! instruction value.

use vstd::prelude::*;

verus! {

use vstd::bytes::{spec_u16_to_le_bytes, spec_u64_to_le_bytes};
use vstd::bytes::{spec_u16_from_le_bytes, spec_u64_from_le_bytes};
use vstd::bytes::{u16_from_le_bytes, u16_to_le_bytes, u64_from_le_bytes, u64_to_le_bytes};
use vstd::bytes::{lemma_auto_spec_u16_to_from_le_bytes, lemma_auto_spec_u64_to_from_le_bytes};
use vstd::slice::slice_subrange;
use crate::error::DataNexusError;
use crate::layout::{opt_block32, wf_opt32, decode_block32, lemma_opt_block32_round_trip,
    push_bytes, push_zero32, read_block32, block_is_zero, copy_bytes};

/// Which record kind an `InitAccount` instruction creates.
pub enum AccountType {
    /// The caller's per-identity dataset (owner) index.
    DatasetIndex,
    /// The target identity's access index.
    AccessIndex,
    /// A dataset record for the carried content hash.
    Dataset(Vec<u8>),
    /// An access grant record for the carried content hash.
    Access(Vec<u8>),
}

/// The view of an `AccountType`.
pub enum AccountTypeView {
    DatasetIndex,
    AccessIndex,
    Dataset(Seq<u8>),
    Access(Seq<u8>),
}

impl View for AccountType {
    type V = AccountTypeView;

    open spec fn view(&self) -> AccountTypeView {
        match self {
            AccountType::DatasetIndex => AccountTypeView::DatasetIndex,
            AccountType::AccessIndex => AccountTypeView::AccessIndex,
            AccountType::Dataset(h) => AccountTypeView::Dataset(h@),
            AccountType::Access(h) => AccountTypeView::Access(h@),
        }
    }
}

impl AccountTypeView {
    /// An account type the wire format can represent.
    pub open spec fn wf(self) -> bool {
        match self {
            AccountTypeView::Dataset(h) => h.len() == 32,
            AccountTypeView::Access(h) => h.len() == 32,
            _ => true,
        }
    }
}

/// Which dataset parameters a `SetDataParams` instruction writes.
///
/// Exactly one variant is active per instruction: the full initialization
/// tuple, or a single-field update that leaves every other field as it
/// was.
pub enum Params {
    /// Key, price, share limit and optional reference, all at once.
    Init(Vec<u8>, u64, u16, Option<Vec<u8>>),
    /// The dataset's decryption key alone.
    Key(Vec<u8>),
    /// The dataset's price alone.
    Value(u64),
    /// The dataset's share limit alone.
    ShareLimit(u16),
    /// The dataset's reference address alone.
    ReferenceData(Vec<u8>),
}

/// The view of a `Params`.
pub enum ParamsView {
    Init(Seq<u8>, u64, u16, Option<Seq<u8>>),
    Key(Seq<u8>),
    Value(u64),
    ShareLimit(u16),
    ReferenceData(Seq<u8>),
}

impl View for Params {
    type V = ParamsView;

    open spec fn view(&self) -> ParamsView {
        match self {
            Params::Init(k, v, l, r) => ParamsView::Init(
                k@,
                *v,
                *l,
                match r {
                    Some(d) => Some(d@),
                    None => None,
                },
            ),
            Params::Key(k) => ParamsView::Key(k@),
            Params::Value(v) => ParamsView::Value(*v),
            Params::ShareLimit(l) => ParamsView::ShareLimit(*l),
            Params::ReferenceData(d) => ParamsView::ReferenceData(d@),
        }
    }
}

impl ParamsView {
    /// A parameter selection the wire format can represent. The optional
    /// reference of the full tuple rides under the zero sentinel, so a
    /// present reference must not be all zero.
    pub open spec fn wf(self) -> bool {
        match self {
            ParamsView::Init(k, v, l, r) => k.len() == 32 && wf_opt32(r),
            ParamsView::Key(k) => k.len() == 32,
            ParamsView::ReferenceData(d) => d.len() == 32,
            _ => true,
        }
    }
}

/// One operation of the ledger's instruction set.
pub enum DataNexusInstruction {
    /// Create and zero-initialize a record of the given kind.
    InitAccount(AccountType),
    /// Write dataset parameters; only the dataset's owner may do so.
    SetDataParams { hash: Vec<u8>, params: Params },
    /// Buy access to the dataset with the given hash for `amount`.
    PurchaseAccess { hash: Vec<u8>, amount: u64 },
    /// Pass one's own access to the dataset on to a recipient.
    ShareAccess { hash: Vec<u8> },
}

/// The view of a `DataNexusInstruction`.
pub enum InstructionView {
    InitAccount(AccountTypeView),
    SetDataParams { hash: Seq<u8>, params: ParamsView },
    PurchaseAccess { hash: Seq<u8>, amount: u64 },
    ShareAccess { hash: Seq<u8> },
}

impl View for DataNexusInstruction {
    type V = InstructionView;

    open spec fn view(&self) -> InstructionView {
        match self {
            DataNexusInstruction::InitAccount(t) => InstructionView::InitAccount(t@),
            DataNexusInstruction::SetDataParams { hash, params } => InstructionView::SetDataParams {
                hash: hash@,
                params: params@,
            },
            DataNexusInstruction::PurchaseAccess { hash, amount } => {
                InstructionView::PurchaseAccess { hash: hash@, amount: *amount }
            },
            DataNexusInstruction::ShareAccess { hash } => InstructionView::ShareAccess {
                hash: hash@,
            },
        }
    }
}

impl InstructionView {
    /// An instruction the wire format can represent.
    pub open spec fn wf(self) -> bool {
        match self {
            InstructionView::InitAccount(t) => t.wf(),
            InstructionView::SetDataParams { hash, params } => hash.len() == 32 && params.wf(),
            InstructionView::PurchaseAccess { hash, amount } => hash.len() == 32,
            InstructionView::ShareAccess { hash } => hash.len() == 32,
        }
    }
}

/// The byte image of an instruction: a one-byte tag, then the payload.
pub open spec fn spec_pack(v: InstructionView) -> Seq<u8> {
    match v {
        InstructionView::InitAccount(t) => match t {
            AccountTypeView::DatasetIndex => seq![0u8, 0u8],
            AccountTypeView::AccessIndex => seq![0u8, 1u8],
            AccountTypeView::Dataset(h) => seq![0u8, 2u8] + h,
            AccountTypeView::Access(h) => seq![0u8, 3u8] + h,
        },
        InstructionView::SetDataParams { hash, params } => match params {
            ParamsView::Init(k, val, l, r) => seq![1u8] + hash + seq![0u8] + k
                + spec_u64_to_le_bytes(val) + spec_u16_to_le_bytes(l) + opt_block32(r),
            ParamsView::Key(k) => seq![1u8] + hash + seq![1u8] + k,
            ParamsView::Value(val) => seq![1u8] + hash + seq![2u8] + spec_u64_to_le_bytes(val),
            ParamsView::ShareLimit(l) => seq![1u8] + hash + seq![3u8] + spec_u16_to_le_bytes(l),
            ParamsView::ReferenceData(d) => seq![1u8] + hash + seq![4u8] + d,
        },
        InstructionView::PurchaseAccess { hash, amount } => seq![2u8] + hash + spec_u64_to_le_bytes(
            amount,
        ),
        InstructionView::ShareAccess { hash } => seq![3u8] + hash,
    }
}

/// Reads an instruction back from a byte buffer; `None` on an empty
/// buffer, an unknown tag or sub-tag, or a truncated payload.
pub open spec fn spec_unpack(b: Seq<u8>) -> Option<InstructionView> {
    if b.len() < 1 {
        None
    } else if b[0] == 0 {
        if b.len() < 2 {
            None
        } else if b[1] == 0 {
            Some(InstructionView::InitAccount(AccountTypeView::DatasetIndex))
        } else if b[1] == 1 {
            Some(InstructionView::InitAccount(AccountTypeView::AccessIndex))
        } else if b[1] == 2 && b.len() >= 34 {
            Some(InstructionView::InitAccount(AccountTypeView::Dataset(b.subrange(2, 34))))
        } else if b[1] == 3 && b.len() >= 34 {
            Some(InstructionView::InitAccount(AccountTypeView::Access(b.subrange(2, 34))))
        } else {
            None
        }
    } else if b[0] == 1 {
        if b.len() < 34 {
            None
        } else {
            let hash = b.subrange(1, 33);
            if b[33] == 0 && b.len() >= 108 {
                Some(
                    InstructionView::SetDataParams {
                        hash,
                        params: ParamsView::Init(
                            b.subrange(34, 66),
                            spec_u64_from_le_bytes(b.subrange(66, 74)),
                            spec_u16_from_le_bytes(b.subrange(74, 76)),
                            decode_block32(b.subrange(76, 108)),
                        ),
                    },
                )
            } else if b[33] == 1 && b.len() >= 66 {
                Some(
                    InstructionView::SetDataParams {
                        hash,
                        params: ParamsView::Key(b.subrange(34, 66)),
                    },
                )
            } else if b[33] == 2 && b.len() >= 42 {
                Some(
                    InstructionView::SetDataParams {
                        hash,
                        params: ParamsView::Value(spec_u64_from_le_bytes(b.subrange(34, 42))),
                    },
                )
            } else if b[33] == 3 && b.len() >= 36 {
                Some(
                    InstructionView::SetDataParams {
                        hash,
                        params: ParamsView::ShareLimit(spec_u16_from_le_bytes(b.subrange(34, 36))),
                    },
                )
            } else if b[33] == 4 && b.len() >= 66 {
                Some(
                    InstructionView::SetDataParams {
                        hash,
                        params: ParamsView::ReferenceData(b.subrange(34, 66)),
                    },
                )
            } else {
                None
            }
        }
    } else if b[0] == 2 {
        if b.len() >= 41 {
            Some(
                InstructionView::PurchaseAccess {
                    hash: b.subrange(1, 33),
                    amount: spec_u64_from_le_bytes(b.subrange(33, 41)),
                },
            )
        } else {
            None
        }
    } else if b[0] == 3 {
        if b.len() >= 33 {
            Some(InstructionView::ShareAccess { hash: b.subrange(1, 33) })
        } else {
            None
        }
    } else {
        None
    }
}

/// Unpacking inverts packing on every representable instruction value.
pub proof fn lemma_instruction_round_trip(v: InstructionView)
    requires
        v.wf(),
    ensures
        spec_unpack(spec_pack(v)) == Some(v),
{
    lemma_auto_spec_u64_to_from_le_bytes();
    lemma_auto_spec_u16_to_from_le_bytes();
    let e = spec_pack(v);
    match v {
        InstructionView::InitAccount(t) => match t {
            AccountTypeView::DatasetIndex => {},
            AccountTypeView::AccessIndex => {},
            AccountTypeView::Dataset(h) => {
                assert(e.subrange(2, 34) =~= h);
            },
            AccountTypeView::Access(h) => {
                assert(e.subrange(2, 34) =~= h);
            },
        },
        InstructionView::SetDataParams { hash, params } => {
            match params {
                ParamsView::Init(k, val, l, r) => {
                    lemma_opt_block32_round_trip(r);
                    assert(spec_u64_to_le_bytes(val).len() == 8);
                    assert(spec_u16_to_le_bytes(l).len() == 2);
                    assert(e.len() == 108);
                    assert(e[33] == 0);
                    assert(e.subrange(1, 33) =~= hash);
                    assert(e.subrange(34, 66) =~= k);
                    assert(e.subrange(66, 74) =~= spec_u64_to_le_bytes(val));
                    assert(e.subrange(74, 76) =~= spec_u16_to_le_bytes(l));
                    assert(e.subrange(76, 108) =~= opt_block32(r));
                },
                ParamsView::Key(k) => {
                    assert(e.subrange(1, 33) =~= hash);
                    assert(e.subrange(34, 66) =~= k);
                },
                ParamsView::Value(val) => {
                    assert(spec_u64_to_le_bytes(val).len() == 8);
                    assert(e.subrange(1, 33) =~= hash);
                    assert(e.subrange(34, 42) =~= spec_u64_to_le_bytes(val));
                },
                ParamsView::ShareLimit(l) => {
                    assert(spec_u16_to_le_bytes(l).len() == 2);
                    assert(e.subrange(1, 33) =~= hash);
                    assert(e.subrange(34, 36) =~= spec_u16_to_le_bytes(l));
                },
                ParamsView::ReferenceData(d) => {
                    assert(e.subrange(1, 33) =~= hash);
                    assert(e.subrange(34, 66) =~= d);
                },
            }
        },
        InstructionView::PurchaseAccess { hash, amount } => {
            assert(spec_u64_to_le_bytes(amount).len() == 8);
            assert(e.subrange(1, 33) =~= hash);
            assert(e.subrange(33, 41) =~= spec_u64_to_le_bytes(amount));
        },
        InstructionView::ShareAccess { hash } => {
            assert(e.subrange(1, 33) =~= hash);
        },
    }
}

/// Decoding rejects an empty buffer and an unknown discriminator.
pub proof fn lemma_unpack_rejects(b: Seq<u8>)
    ensures
        b.len() == 0 ==> spec_unpack(b) is None,
        b.len() >= 1 && b[0] != 0 && b[0] != 1 && b[0] != 2 && b[0] != 3 ==> spec_unpack(
            b,
        ) is None,
{
}

/// Whatever decodes is representable and was fully present: the decoded
/// instruction is well-formed, and its own wire image fits inside the
/// decoded buffer — so a buffer shorter than its variant's payload never
/// decodes.
pub proof fn lemma_unpack_requires_full_payload(b: Seq<u8>)
    requires
        spec_unpack(b) is Some,
    ensures
        spec_unpack(b)->Some_0.wf(),
        spec_pack(spec_unpack(b)->Some_0).len() <= b.len(),
{
    lemma_auto_spec_u64_to_from_le_bytes();
    lemma_auto_spec_u16_to_from_le_bytes();
    let v = spec_unpack(b)->Some_0;
    match v {
        InstructionView::SetDataParams { hash, params } => {
            match params {
                ParamsView::Init(k, val, l, r) => {
                    assert(opt_block32(decode_block32(b.subrange(76, 108))).len() == 32);
                },
                _ => {},
            }
        },
        _ => {},
    }
}

impl DataNexusInstruction {
    /// Serializes the instruction to its wire form.
    pub fn pack(&self) -> (r: Vec<u8>)
        ensures
            r@ == spec_pack(self@),
    {
        let mut buf: Vec<u8> = Vec::new();
        match self {
            DataNexusInstruction::InitAccount(t) => {
                buf.push(0u8);
                match t {
                    AccountType::DatasetIndex => buf.push(0u8),
                    AccountType::AccessIndex => buf.push(1u8),
                    AccountType::Dataset(h) => {
                        buf.push(2u8);
                        push_bytes(&mut buf, h.as_slice());
                    },
                    AccountType::Access(h) => {
                        buf.push(3u8);
                        push_bytes(&mut buf, h.as_slice());
                    },
                }
            },
            DataNexusInstruction::SetDataParams { hash, params } => {
                buf.push(1u8);
                push_bytes(&mut buf, hash.as_slice());
                match params {
                    Params::Init(k, val, l, r) => {
                        buf.push(0u8);
                        push_bytes(&mut buf, k.as_slice());
                        let mut vb = u64_to_le_bytes(*val);
                        buf.append(&mut vb);
                        let mut lb = u16_to_le_bytes(*l);
                        buf.append(&mut lb);
                        match r {
                            Some(d) => push_bytes(&mut buf, d.as_slice()),
                            None => push_zero32(&mut buf),
                        }
                    },
                    Params::Key(k) => {
                        buf.push(1u8);
                        push_bytes(&mut buf, k.as_slice());
                    },
                    Params::Value(val) => {
                        buf.push(2u8);
                        let mut vb = u64_to_le_bytes(*val);
                        buf.append(&mut vb);
                    },
                    Params::ShareLimit(l) => {
                        buf.push(3u8);
                        let mut lb = u16_to_le_bytes(*l);
                        buf.append(&mut lb);
                    },
                    Params::ReferenceData(d) => {
                        buf.push(4u8);
                        push_bytes(&mut buf, d.as_slice());
                    },
                }
            },
            DataNexusInstruction::PurchaseAccess { hash, amount } => {
                buf.push(2u8);
                push_bytes(&mut buf, hash.as_slice());
                let mut ab = u64_to_le_bytes(*amount);
                buf.append(&mut ab);
            },
            DataNexusInstruction::ShareAccess { hash } => {
                buf.push(3u8);
                push_bytes(&mut buf, hash.as_slice());
            },
        }
        proof {
            assert(buf@ =~= spec_pack(self@));
        }
        buf
    }

    /// Deserializes an instruction from its wire form, rejecting an empty
    /// buffer, an unknown tag or sub-tag, and a truncated payload.
    pub fn unpack(data: &[u8]) -> (r: Result<DataNexusInstruction, DataNexusError>)
        ensures
            match r {
                Ok(i) => spec_unpack(data@) == Some(i@),
                Err(e) => spec_unpack(data@) is None && e == DataNexusError::InvalidInstruction,
            },
    {
        if data.len() < 1 {
            return Err(DataNexusError::InvalidInstruction);
        }
        let tag = data[0];
        if tag == 0 {
            if data.len() < 2 {
                return Err(DataNexusError::InvalidInstruction);
            }
            let sub = data[1];
            if sub == 0 {
                Ok(DataNexusInstruction::InitAccount(AccountType::DatasetIndex))
            } else if sub == 1 {
                Ok(DataNexusInstruction::InitAccount(AccountType::AccessIndex))
            } else if sub == 2 && data.len() >= 34 {
                let h = read_block32(data, 2);
                Ok(DataNexusInstruction::InitAccount(AccountType::Dataset(h)))
            } else if sub == 3 && data.len() >= 34 {
                let h = read_block32(data, 2);
                Ok(DataNexusInstruction::InitAccount(AccountType::Access(h)))
            } else {
                Err(DataNexusError::InvalidInstruction)
            }
        } else if tag == 1 {
            if data.len() < 34 {
                return Err(DataNexusError::InvalidInstruction);
            }
            let hash = read_block32(data, 1);
            let ptag = data[33];
            if ptag == 0 && data.len() >= 108 {
                let k = read_block32(data, 34);
                let val = u64_from_le_bytes(slice_subrange(data, 66, 74));
                let l = u16_from_le_bytes(slice_subrange(data, 74, 76));
                let rb = read_block32(data, 76);
                let r = if block_is_zero(&rb) {
                    None
                } else {
                    Some(rb)
                };
                Ok(DataNexusInstruction::SetDataParams { hash, params: Params::Init(k, val, l, r) })
            } else if ptag == 1 && data.len() >= 66 {
                let k = read_block32(data, 34);
                Ok(DataNexusInstruction::SetDataParams { hash, params: Params::Key(k) })
            } else if ptag == 2 && data.len() >= 42 {
                let val = u64_from_le_bytes(slice_subrange(data, 34, 42));
                Ok(DataNexusInstruction::SetDataParams { hash, params: Params::Value(val) })
            } else if ptag == 3 && data.len() >= 36 {
                let l = u16_from_le_bytes(slice_subrange(data, 34, 36));
                Ok(DataNexusInstruction::SetDataParams { hash, params: Params::ShareLimit(l) })
            } else if ptag == 4 && data.len() >= 66 {
                let d = read_block32(data, 34);
                Ok(DataNexusInstruction::SetDataParams { hash, params: Params::ReferenceData(d) })
            } else {
                Err(DataNexusError::InvalidInstruction)
            }
        } else if tag == 2 {
            if data.len() < 41 {
                return Err(DataNexusError::InvalidInstruction);
            }
            let hash = read_block32(data, 1);
            let amount = u64_from_le_bytes(slice_subrange(data, 33, 41));
            Ok(DataNexusInstruction::PurchaseAccess { hash, amount })
        } else if tag == 3 {
            if data.len() < 33 {
                return Err(DataNexusError::InvalidInstruction);
            }
            let hash = read_block32(data, 1);
            Ok(DataNexusInstruction::ShareAccess { hash })
        } else {
            Err(DataNexusError::InvalidInstruction)
        }
    }
}

/// One entry of a built instruction's account list: the account's
/// address, whether it must co-sign, and whether it may be written.
pub struct AccountMeta {
    pub pubkey: Vec<u8>,
    pub is_signer: bool,
    pub is_writable: bool,
}

/// The view of an `AccountMeta`.
pub struct AccountMetaView {
    pub pubkey: Seq<u8>,
    pub is_signer: bool,
    pub is_writable: bool,
}

impl View for AccountMeta {
    type V = AccountMetaView;

    open spec fn view(&self) -> AccountMetaView {
        AccountMetaView {
            pubkey: self.pubkey@,
            is_signer: self.is_signer,
            is_writable: self.is_writable,
        }
    }
}

/// The views of an account-meta list.
pub open spec fn metas_view(ms: Seq<AccountMeta>) -> Seq<AccountMetaView> {
    ms.map_values(|m: AccountMeta| m@)
}

/// An account-meta view, for stating built account lists.
pub open spec fn meta(pubkey: Seq<u8>, is_signer: bool, is_writable: bool) -> AccountMetaView {
    AccountMetaView { pubkey, is_signer, is_writable }
}

/// A fully built instruction, ready for the hosting runtime: the
/// program to invoke, its ordered account list, and the packed
/// instruction bytes. The account order is exactly the order the
/// processor consumes.
pub struct Instruction {
    pub program_id: Vec<u8>,
    pub accounts: Vec<AccountMeta>,
    pub data: Vec<u8>,
}

/// Builds one account meta.
fn new_meta(pubkey: &Vec<u8>, is_signer: bool, is_writable: bool) -> (r: AccountMeta)
    ensures
        r@ == meta(pubkey@, is_signer, is_writable),
{
    AccountMeta { pubkey: copy_bytes(pubkey), is_signer, is_writable }
}

/// The account list of an index-record creation: the funding payer,
/// the target identity, the new index account.
fn init_index_metas(payer: &Vec<u8>, authority: &Vec<u8>, new_account: &Vec<u8>) -> (r: Vec<
    AccountMeta,
>)
    ensures
        metas_view(r@) =~= seq![
            meta(payer@, true, true),
            meta(authority@, false, true),
            meta(new_account@, false, true),
        ],
{
    let mut accounts: Vec<AccountMeta> = Vec::new();
    accounts.push(new_meta(payer, true, true));
    accounts.push(new_meta(authority, false, true));
    accounts.push(new_meta(new_account, false, true));
    accounts
}

/// Builds the accounts and data of an `InitAccount` for the caller's
/// dataset (owner) index.
fn init_dataset_index(authority: &Vec<u8>, new_account: &Vec<u8>) -> (r: (
    Vec<AccountMeta>,
    Vec<u8>,
))
    ensures
        metas_view(r.0@) =~= seq![
            meta(authority@, true, true),
            meta(authority@, false, true),
            meta(new_account@, false, true),
        ],
        r.1@ == spec_pack(InstructionView::InitAccount(AccountTypeView::DatasetIndex)),
{
    let accounts = init_index_metas(authority, authority, new_account);
    let data = DataNexusInstruction::InitAccount(AccountType::DatasetIndex).pack();
    (accounts, data)
}

/// Builds the accounts and data of an `InitAccount` for the target
/// identity's access index, funded by `payer`.
fn init_access_index(payer: &Vec<u8>, authority: &Vec<u8>, new_account: &Vec<u8>) -> (r: (
    Vec<AccountMeta>,
    Vec<u8>,
))
    ensures
        metas_view(r.0@) =~= seq![
            meta(payer@, true, true),
            meta(authority@, false, true),
            meta(new_account@, false, true),
        ],
        r.1@ == spec_pack(InstructionView::InitAccount(AccountTypeView::AccessIndex)),
{
    let accounts = init_index_metas(payer, authority, new_account);
    let data = DataNexusInstruction::InitAccount(AccountType::AccessIndex).pack();
    (accounts, data)
}

/// Builds the accounts and data of an `InitAccount` for a dataset
/// record: the signing owner, the owner's index page, the new record.
fn init_dataset_account(authority: &Vec<u8>, index_account: &Vec<u8>, new_account: &Vec<u8>,
    hash: &Vec<u8>) -> (r: (Vec<AccountMeta>, Vec<u8>))
    ensures
        metas_view(r.0@) =~= seq![
            meta(authority@, true, true),
            meta(index_account@, false, true),
            meta(new_account@, false, true),
        ],
        r.1@ == spec_pack(InstructionView::InitAccount(AccountTypeView::Dataset(hash@))),
{
    let mut accounts: Vec<AccountMeta> = Vec::new();
    accounts.push(new_meta(authority, true, true));
    accounts.push(new_meta(index_account, false, true));
    accounts.push(new_meta(new_account, false, true));
    let data = DataNexusInstruction::InitAccount(AccountType::Dataset(copy_bytes(hash))).pack();
    (accounts, data)
}

/// Builds the accounts and data of an `InitAccount` for an access
/// grant record: the funding payer, the holding identity, the
/// holder's access index page, the new record.
fn init_access_account(payer: &Vec<u8>, authority: &Vec<u8>, index_account: &Vec<u8>,
    new_account: &Vec<u8>, hash: &Vec<u8>) -> (r: (Vec<AccountMeta>, Vec<u8>))
    ensures
        metas_view(r.0@) =~= seq![
            meta(payer@, true, true),
            meta(authority@, false, true),
            meta(index_account@, false, true),
            meta(new_account@, false, true),
        ],
        r.1@ == spec_pack(InstructionView::InitAccount(AccountTypeView::Access(hash@))),
{
    let mut accounts: Vec<AccountMeta> = Vec::new();
    accounts.push(new_meta(payer, true, true));
    accounts.push(new_meta(authority, false, true));
    accounts.push(new_meta(index_account, false, true));
    accounts.push(new_meta(new_account, false, true));
    let data = DataNexusInstruction::InitAccount(AccountType::Access(copy_bytes(hash))).pack();
    (accounts, data)
}

/// Builds an `InitAccount` instruction. The index kinds take no index
/// account; the record kinds require the index page their address is
/// appended to, and fail with `InvalidInstruction` without one. A
/// missing payer defaults to the authority.
pub fn init_account(
    program_id: &Vec<u8>,
    payer: Option<&Vec<u8>>,
    authority: &Vec<u8>,
    new_account: &Vec<u8>,
    index_account: Option<&Vec<u8>>,
    account_type: &AccountType,
) -> (r: Result<Instruction, DataNexusError>)
    ensures
        match r {
            Ok(ix) => ix.program_id@ == program_id@ && ix.data@ == spec_pack(
                InstructionView::InitAccount(account_type@),
            ) && match account_type@ {
                AccountTypeView::DatasetIndex => metas_view(ix.accounts@) == seq![
                    meta(authority@, true, true),
                    meta(authority@, false, true),
                    meta(new_account@, false, true),
                ],
                AccountTypeView::AccessIndex => metas_view(ix.accounts@) == seq![
                    meta(payer_or(payer, authority@), true, true),
                    meta(authority@, false, true),
                    meta(new_account@, false, true),
                ],
                AccountTypeView::Dataset(h) => index_account is Some && metas_view(ix.accounts@)
                    == seq![
                    meta(authority@, true, true),
                    meta(index_account->Some_0@, false, true),
                    meta(new_account@, false, true),
                ],
                AccountTypeView::Access(h) => index_account is Some && metas_view(ix.accounts@)
                    == seq![
                    meta(payer_or(payer, authority@), true, true),
                    meta(authority@, false, true),
                    meta(index_account->Some_0@, false, true),
                    meta(new_account@, false, true),
                ],
            },
            Err(e) => e == DataNexusError::InvalidInstruction && (account_type@ matches
            AccountTypeView::Dataset(_) || account_type@ matches AccountTypeView::Access(_))
                && index_account is None,
        },
{
    let (accounts, data) = match account_type {
        AccountType::DatasetIndex => init_dataset_index(authority, new_account),
        AccountType::AccessIndex => init_access_index(
            match payer {
                Some(p) => p,
                None => authority,
            },
            authority,
            new_account,
        ),
        AccountType::Dataset(hash) => {
            match index_account {
                Some(ia) => init_dataset_account(authority, ia, new_account, hash),
                None => {
                    return Err(DataNexusError::InvalidInstruction);
                },
            }
        },
        AccountType::Access(hash) => {
            match index_account {
                Some(ia) => init_access_account(
                    match payer {
                        Some(p) => p,
                        None => authority,
                    },
                    authority,
                    ia,
                    new_account,
                    hash,
                ),
                None => {
                    return Err(DataNexusError::InvalidInstruction);
                },
            }
        },
    };
    Ok(Instruction { program_id: copy_bytes(program_id), accounts, data })
}

/// The effective payer: the given one, or the authority.
pub open spec fn payer_or(payer: Option<&Vec<u8>>, authority: Seq<u8>) -> Seq<u8> {
    match payer {
        Some(p) => p@,
        None => authority,
    }
}

/// Builds a `SetDataParams` instruction: the signing owner and the
/// dataset record to write.
pub fn set_data_params(
    program_id: &Vec<u8>,
    authority: &Vec<u8>,
    dataset_account: &Vec<u8>,
    hash: &Vec<u8>,
    params: Params,
) -> (r: Result<Instruction, DataNexusError>)
    ensures
        match r {
            Ok(ix) => ix.program_id@ == program_id@ && ix.data@ == spec_pack(
                InstructionView::SetDataParams { hash: hash@, params: params@ },
            ) && metas_view(ix.accounts@) == seq![
                meta(authority@, true, true),
                meta(dataset_account@, false, true),
            ],
            Err(e) => false,
        },
{
    let mut accounts: Vec<AccountMeta> = Vec::new();
    accounts.push(new_meta(authority, true, true));
    accounts.push(new_meta(dataset_account, false, true));
    let data = DataNexusInstruction::SetDataParams { hash: copy_bytes(hash), params }.pack();
    proof {
        assert(metas_view(accounts@) =~= seq![
            meta(authority@, true, true),
            meta(dataset_account@, false, true),
        ]);
    }
    Ok(Instruction { program_id: copy_bytes(program_id), accounts, data })
}

/// Builds a `PurchaseAccess` instruction: the signing buyer, the
/// buyer's grant record, the two token accounts the payment moves
/// between, the dataset record, and the token program.
pub fn purchase_access(
    program_id: &Vec<u8>,
    user_authority: &Vec<u8>,
    user_access_account: &Vec<u8>,
    user_token_account: &Vec<u8>,
    owner_token_account: &Vec<u8>,
    dataset_account: &Vec<u8>,
    token_program: &Vec<u8>,
    hash: &Vec<u8>,
    amount: u64,
) -> (r: Result<Instruction, DataNexusError>)
    ensures
        match r {
            Ok(ix) => ix.program_id@ == program_id@ && ix.data@ == spec_pack(
                InstructionView::PurchaseAccess { hash: hash@, amount },
            ) && metas_view(ix.accounts@) == seq![
                meta(user_authority@, true, true),
                meta(user_access_account@, false, true),
                meta(user_token_account@, false, true),
                meta(owner_token_account@, false, true),
                meta(dataset_account@, false, false),
                meta(token_program@, false, false),
            ],
            Err(e) => false,
        },
{
    let mut accounts: Vec<AccountMeta> = Vec::new();
    accounts.push(new_meta(user_authority, true, true));
    accounts.push(new_meta(user_access_account, false, true));
    accounts.push(new_meta(user_token_account, false, true));
    accounts.push(new_meta(owner_token_account, false, true));
    accounts.push(new_meta(dataset_account, false, false));
    accounts.push(new_meta(token_program, false, false));
    let data = DataNexusInstruction::PurchaseAccess { hash: copy_bytes(hash), amount }.pack();
    proof {
        assert(metas_view(accounts@) =~= seq![
            meta(user_authority@, true, true),
            meta(user_access_account@, false, true),
            meta(user_token_account@, false, true),
            meta(owner_token_account@, false, true),
            meta(dataset_account@, false, false),
            meta(token_program@, false, false),
        ]);
    }
    Ok(Instruction { program_id: copy_bytes(program_id), accounts, data })
}

/// Builds a `ShareAccess` instruction: the signing sharer, the
/// sharer's grant record, the recipient identity, the recipient's
/// grant record, and the dataset record.
pub fn share_access(
    program_id: &Vec<u8>,
    user_authority: &Vec<u8>,
    user_access_account: &Vec<u8>,
    recipient_authority: &Vec<u8>,
    recipient_access_account: &Vec<u8>,
    dataset_account: &Vec<u8>,
    hash: &Vec<u8>,
) -> (r: Result<Instruction, DataNexusError>)
    ensures
        match r {
            Ok(ix) => ix.program_id@ == program_id@ && ix.data@ == spec_pack(
                InstructionView::ShareAccess { hash: hash@ },
            ) && metas_view(ix.accounts@) == seq![
                meta(user_authority@, true, true),
                meta(user_access_account@, false, true),
                meta(recipient_authority@, false, false),
                meta(recipient_access_account@, false, true),
                meta(dataset_account@, false, false),
            ],
            Err(e) => false,
        },
{
    let mut accounts: Vec<AccountMeta> = Vec::new();
    accounts.push(new_meta(user_authority, true, true));
    accounts.push(new_meta(user_access_account, false, true));
    accounts.push(new_meta(recipient_authority, false, false));
    accounts.push(new_meta(recipient_access_account, false, true));
    accounts.push(new_meta(dataset_account, false, false));
    let data = DataNexusInstruction::ShareAccess { hash: copy_bytes(hash) }.pack();
    proof {
        assert(metas_view(accounts@) =~= seq![
            meta(user_authority@, true, true),
            meta(user_access_account@, false, true),
            meta(recipient_authority@, false, false),
            meta(recipient_access_account@, false, true),
            meta(dataset_account@, false, false),
        ]);
    }
    Ok(Instruction { program_id: copy_bytes(program_id), accounts, data })
}

} // verus!
