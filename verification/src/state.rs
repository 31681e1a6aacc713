//! Persistent record kinds and their fixed-layout codecs.
//!
//! Three record kinds are stored by the ledger:
//! - [`AccountState`]: one published dataset — its owner, content hash and
//!   optional parameters (decryption key, price, share limit, reference).
//! - [`AccountIndex`]: a fixed-capacity list of record addresses belonging
//!   to one identity, chainable through a pointer when full.
//! - [`AccessGrant`]: one identity's access right to one dataset, with a
//!   remaining re-share budget.
//!
//! Every record starts with an `initialized` flag byte (`0` or `1`); a
//! buffer whose flag byte is anything else, or whose length is wrong, is
//! rejected as invalid account data. Encoding and decoding share one set of
//! fixed offsets, and decoding inverts encoding on every well-formed value.

use vstd::prelude::*;

verus! {

use vstd::bytes::{spec_u16_to_le_bytes, spec_u64_to_le_bytes};
use vstd::bytes::{spec_u16_from_le_bytes, spec_u64_from_le_bytes};
use vstd::bytes::{u16_from_le_bytes, u16_to_le_bytes, u64_from_le_bytes, u64_to_le_bytes};
use vstd::slice::slice_subrange;
use crate::error::DataNexusError;
use crate::layout::{zero32, opt_block32, wf_opt32, decode_block32, opt_word64, wf_opt64,
    decode_word64, opt_word16, wf_opt16, decode_word16, init_byte,
    lemma_opt_block32_round_trip, lemma_opt_word64_round_trip, lemma_opt_word16_round_trip,
    push_bytes, push_zero32, read_block32, block_is_zero};

/// Byte length of a dataset record.
pub const STATE_LEN: usize = 139;

/// Byte length of an access grant record.
pub const GRANT_LEN: usize = 105;

/// Number of address slots in one index record.
pub const INDEX_SLOTS: usize = 128;

/// Byte length of an index record.
pub const INDEX_LEN: usize = 4129;

/// Which of the two per-identity index kinds a record or instruction
/// speaks of: the list of datasets an identity created, or the list of
/// datasets it holds access to.
#[derive(Clone, Copy, Debug, PartialEq, Eq, Structural)]
pub enum AccountFlag {
    /// The per-identity access index.
    Access,
    /// The per-identity dataset (owner) index.
    Dataset,
}

/// The mathematical content of a dataset record.
pub struct StateView {
    pub initialized: bool,
    pub owner: Seq<u8>,
    pub hash: Seq<u8>,
    pub key: Option<Seq<u8>>,
    pub value: Option<u64>,
    pub share_limit: Option<u16>,
    pub reference: Option<Seq<u8>>,
}

impl StateView {
    /// A dataset record value that the sentinel-based layout can represent.
    pub open spec fn wf(self) -> bool {
        &&& self.owner.len() == 32
        &&& self.hash.len() == 32
        &&& wf_opt32(self.key)
        &&& wf_opt64(self.value)
        &&& wf_opt16(self.share_limit)
        &&& wf_opt32(self.reference)
    }
}

/// One published dataset: its owner, content hash and optional parameters.
///
/// The owner is immutable after creation; only the owner may update the
/// optional fields, and an optional field once set is never reset to
/// absent. The record's address is derived solely from `hash`, so at most
/// one record exists per unique content hash.
pub struct AccountState {
    pub is_initialized: bool,
    /// The identity that created the dataset record.
    pub owner: Vec<u8>,
    /// The dataset's 32-byte content hash.
    pub hash: Vec<u8>,
    /// The dataset's decryption key, once set.
    pub key: Option<Vec<u8>>,
    /// The dataset's price, once set.
    pub value: Option<u64>,
    /// How many times a direct purchaser may re-share access, once set.
    pub share_limit: Option<u16>,
    /// The address of the dataset this one is derived from, once set.
    pub reference: Option<Vec<u8>>,
}

/// The view of an optional byte string.
pub open spec fn opt_bytes_view(o: Option<Vec<u8>>) -> Option<Seq<u8>> {
    match o {
        Some(v) => Some(v@),
        None => None,
    }
}

/// Copies an optional byte string.
pub fn copy_opt_bytes(o: &Option<Vec<u8>>) -> (r: Option<Vec<u8>>)
    ensures
        opt_bytes_view(r) == opt_bytes_view(*o),
{
    match o {
        Some(v) => Some(crate::layout::copy_bytes(v)),
        None => None,
    }
}

impl View for AccountState {
    type V = StateView;

    open spec fn view(&self) -> StateView {
        StateView {
            initialized: self.is_initialized,
            owner: self.owner@,
            hash: self.hash@,
            key: opt_bytes_view(self.key),
            value: self.value,
            share_limit: self.share_limit,
            reference: opt_bytes_view(self.reference),
        }
    }
}

/// The byte image of a dataset record: flag byte, owner, hash, then the
/// optional key, price, share limit and reference under zero sentinels.
pub open spec fn spec_encode_state(v: StateView) -> Seq<u8> {
    seq![init_byte(v.initialized)] + v.owner + v.hash + opt_block32(v.key)
        + spec_u64_to_le_bytes(opt_word64(v.value)) + spec_u16_to_le_bytes(
        opt_word16(v.share_limit),
    ) + opt_block32(v.reference)
}

/// Reads a dataset record back from its byte image; `None` on a buffer of
/// the wrong length or with a flag byte outside `{0, 1}`.
pub open spec fn spec_decode_state(b: Seq<u8>) -> Option<StateView> {
    if b.len() != STATE_LEN {
        None
    } else if b[0] != 0 && b[0] != 1 {
        None
    } else {
        Some(
            StateView {
                initialized: b[0] == 1,
                owner: b.subrange(1, 33),
                hash: b.subrange(33, 65),
                key: decode_block32(b.subrange(65, 97)),
                value: decode_word64(b.subrange(97, 105)),
                share_limit: decode_word16(b.subrange(105, 107)),
                reference: decode_block32(b.subrange(107, 139)),
            },
        )
    }
}

/// Decoding a dataset record inverts encoding on every representable value.
pub proof fn lemma_state_round_trip(v: StateView)
    requires
        v.wf(),
    ensures
        spec_encode_state(v).len() == STATE_LEN,
        spec_decode_state(spec_encode_state(v)) == Some(v),
{
    lemma_opt_block32_round_trip(v.key);
    lemma_opt_block32_round_trip(v.reference);
    lemma_opt_word64_round_trip(v.value);
    lemma_opt_word16_round_trip(v.share_limit);
    let e = spec_encode_state(v);
    assert(e.len() == STATE_LEN);
    assert(e[0] == init_byte(v.initialized));
    assert(e.subrange(1, 33) =~= v.owner);
    assert(e.subrange(33, 65) =~= v.hash);
    assert(e.subrange(65, 97) =~= opt_block32(v.key));
    assert(e.subrange(97, 105) =~= spec_u64_to_le_bytes(opt_word64(v.value)));
    assert(e.subrange(105, 107) =~= spec_u16_to_le_bytes(opt_word16(v.share_limit)));
    assert(e.subrange(107, 139) =~= opt_block32(v.reference));
}

impl AccountState {
    /// Serializes the record to its fixed-length byte image.
    pub fn pack(&self) -> (r: Vec<u8>)
        ensures
            r@ == spec_encode_state(self@),
    {
        let mut buf: Vec<u8> = Vec::new();
        buf.push(if self.is_initialized { 1 } else { 0 });
        push_bytes(&mut buf, self.owner.as_slice());
        push_bytes(&mut buf, self.hash.as_slice());
        match &self.key {
            Some(k) => push_bytes(&mut buf, k.as_slice()),
            None => push_zero32(&mut buf),
        }
        let mut vb = u64_to_le_bytes(
            match self.value {
                Some(v) => v,
                None => 0,
            },
        );
        buf.append(&mut vb);
        let mut sb = u16_to_le_bytes(
            match self.share_limit {
                Some(s) => s,
                None => 0,
            },
        );
        buf.append(&mut sb);
        match &self.reference {
            Some(d) => push_bytes(&mut buf, d.as_slice()),
            None => push_zero32(&mut buf),
        }
        proof {
            assert(buf@ =~= spec_encode_state(self@));
        }
        buf
    }

    /// Deserializes a record from a buffer, rejecting any buffer that is
    /// not a byte image of a record.
    pub fn unpack_from_slice(src: &[u8]) -> (r: Result<AccountState, DataNexusError>)
        ensures
            match r {
                Ok(s) => spec_decode_state(src@) == Some(s@),
                Err(e) => spec_decode_state(src@) is None && e
                    == DataNexusError::InvalidAccountData,
            },
    {
        if src.len() != STATE_LEN {
            return Err(DataNexusError::InvalidAccountData);
        }
        let b0 = src[0];
        if b0 != 0 && b0 != 1 {
            return Err(DataNexusError::InvalidAccountData);
        }
        let owner = read_block32(src, 1);
        let hash = read_block32(src, 33);
        let keyb = read_block32(src, 65);
        let key = if block_is_zero(&keyb) {
            None
        } else {
            Some(keyb)
        };
        let vword = u64_from_le_bytes(slice_subrange(src, 97, 105));
        let value = if vword == 0 {
            None
        } else {
            Some(vword)
        };
        let sword = u16_from_le_bytes(slice_subrange(src, 105, 107));
        let share_limit = if sword == 0 {
            None
        } else {
            Some(sword)
        };
        let refb = read_block32(src, 107);
        let reference = if block_is_zero(&refb) {
            None
        } else {
            Some(refb)
        };
        let st = AccountState { is_initialized: b0 == 1, owner, hash, key, value, share_limit, reference };
        Ok(st)
    }
}

/// The mathematical content of an access grant record.
pub struct GrantView {
    pub initialized: bool,
    pub hash: Seq<u8>,
    pub key: Seq<u8>,
    pub granted_by: Option<Seq<u8>>,
    pub share_limit: u64,
}

impl GrantView {
    /// An access grant value that the sentinel-based layout can represent.
    pub open spec fn wf(self) -> bool {
        &&& self.hash.len() == 32
        &&& self.key.len() == 32
        &&& wf_opt32(self.granted_by)
    }
}

/// One identity's access right to one dataset.
///
/// A grant is created by a direct purchase (`granted_by` absent) or by a
/// share action from another holder (`granted_by` names the sharer, and
/// the received grant carries no re-share budget of its own).
pub struct AccessGrant {
    pub is_initialized: bool,
    /// The content hash of the dataset the grant gives access to.
    pub hash: Vec<u8>,
    /// A copy of the dataset's decryption key, as of purchase or share.
    pub key: Vec<u8>,
    /// The identity the access was shared from; absent for a direct purchase.
    pub granted_by: Option<Vec<u8>>,
    /// The remaining re-share budget; it only ever decreases, by exactly
    /// one per successful share action.
    pub share_limit: u64,
}

impl View for AccessGrant {
    type V = GrantView;

    open spec fn view(&self) -> GrantView {
        GrantView {
            initialized: self.is_initialized,
            hash: self.hash@,
            key: self.key@,
            granted_by: opt_bytes_view(self.granted_by),
            share_limit: self.share_limit,
        }
    }
}

/// The byte image of an access grant: flag byte, hash, key, the optional
/// granting identity under a zero sentinel, then the share budget.
pub open spec fn spec_encode_grant(v: GrantView) -> Seq<u8> {
    seq![init_byte(v.initialized)] + v.hash + v.key + opt_block32(v.granted_by)
        + spec_u64_to_le_bytes(v.share_limit)
}

/// Reads an access grant back from its byte image.
pub open spec fn spec_decode_grant(b: Seq<u8>) -> Option<GrantView> {
    if b.len() != GRANT_LEN {
        None
    } else if b[0] != 0 && b[0] != 1 {
        None
    } else {
        Some(
            GrantView {
                initialized: b[0] == 1,
                hash: b.subrange(1, 33),
                key: b.subrange(33, 65),
                granted_by: decode_block32(b.subrange(65, 97)),
                share_limit: spec_u64_from_le_bytes(b.subrange(97, 105)),
            },
        )
    }
}

/// Decoding an access grant inverts encoding on every representable value.
pub proof fn lemma_grant_round_trip(v: GrantView)
    requires
        v.wf(),
    ensures
        spec_encode_grant(v).len() == GRANT_LEN,
        spec_decode_grant(spec_encode_grant(v)) == Some(v),
{
    lemma_opt_block32_round_trip(v.granted_by);
    vstd::bytes::lemma_auto_spec_u64_to_from_le_bytes();
    assert(spec_u64_to_le_bytes(v.share_limit).len() == 8);
    let e = spec_encode_grant(v);
    assert(e.len() == GRANT_LEN);
    assert(e[0] == init_byte(v.initialized));
    assert(e.subrange(1, 33) =~= v.hash);
    assert(e.subrange(33, 65) =~= v.key);
    assert(e.subrange(65, 97) =~= opt_block32(v.granted_by));
    assert(e.subrange(97, 105) =~= spec_u64_to_le_bytes(v.share_limit));
}

impl AccessGrant {
    /// Serializes the grant to its fixed-length byte image.
    pub fn pack(&self) -> (r: Vec<u8>)
        ensures
            r@ == spec_encode_grant(self@),
    {
        let mut buf: Vec<u8> = Vec::new();
        buf.push(if self.is_initialized { 1 } else { 0 });
        push_bytes(&mut buf, self.hash.as_slice());
        push_bytes(&mut buf, self.key.as_slice());
        match &self.granted_by {
            Some(g) => push_bytes(&mut buf, g.as_slice()),
            None => push_zero32(&mut buf),
        }
        let mut lb = u64_to_le_bytes(self.share_limit);
        buf.append(&mut lb);
        proof {
            assert(buf@ =~= spec_encode_grant(self@));
        }
        buf
    }

    /// Deserializes a grant from a buffer, rejecting any buffer that is
    /// not a byte image of a grant.
    pub fn unpack_from_slice(src: &[u8]) -> (r: Result<AccessGrant, DataNexusError>)
        ensures
            match r {
                Ok(g) => spec_decode_grant(src@) == Some(g@),
                Err(e) => spec_decode_grant(src@) is None && e
                    == DataNexusError::InvalidAccountData,
            },
    {
        if src.len() != GRANT_LEN {
            return Err(DataNexusError::InvalidAccountData);
        }
        let b0 = src[0];
        if b0 != 0 && b0 != 1 {
            return Err(DataNexusError::InvalidAccountData);
        }
        let hash = read_block32(src, 1);
        let key = read_block32(src, 33);
        let gb = read_block32(src, 65);
        let granted_by = if block_is_zero(&gb) {
            None
        } else {
            Some(gb)
        };
        let share_limit = u64_from_le_bytes(slice_subrange(src, 97, 105));
        let g = AccessGrant { is_initialized: b0 == 1, hash, key, granted_by, share_limit };
        Ok(g)
    }
}

/// The mathematical content of an index record.
pub struct IndexView {
    pub initialized: bool,
    pub pointer: Option<Seq<u8>>,
    pub slots: Seq<Option<Seq<u8>>>,
}

impl IndexView {
    /// An index record value that the layout can represent: exactly 128
    /// slots, each either empty or a non-zero 32-byte address.
    pub open spec fn wf(self) -> bool {
        &&& wf_opt32(self.pointer)
        &&& self.slots.len() == INDEX_SLOTS
        &&& forall|i: int| 0 <= i < self.slots.len() ==> wf_opt32(#[trigger] self.slots[i])
    }
}

/// A per-identity list of record addresses with fixed capacity.
///
/// An index holds at most 128 live entries; the 129th entry for an
/// identity must be placed in a newly chained index record reachable via
/// `pointer`, never by overwriting or growing beyond capacity.
pub struct AccountIndex {
    pub is_initialized: bool,
    /// The address of the next chained index record, once one exists.
    pub pointer: Option<Vec<u8>>,
    /// The 128 address slots; an empty slot is `None`.
    pub datasets: Vec<Option<Vec<u8>>>,
}

impl View for AccountIndex {
    type V = IndexView;

    open spec fn view(&self) -> IndexView {
        IndexView {
            initialized: self.is_initialized,
            pointer: opt_bytes_view(self.pointer),
            slots: self.datasets@.map_values(|o: Option<Vec<u8>>| opt_bytes_view(o)),
        }
    }
}

/// The concatenated byte blocks of a slot sequence.
pub open spec fn slots_bytes(s: Seq<Option<Seq<u8>>>) -> Seq<u8>
    decreases s.len(),
{
    if s.len() == 0 {
        Seq::empty()
    } else {
        slots_bytes(s.drop_last()) + opt_block32(s.last())
    }
}

/// Each well-formed slot contributes exactly 32 bytes.
pub proof fn lemma_slots_bytes_len(s: Seq<Option<Seq<u8>>>)
    requires
        forall|i: int| 0 <= i < s.len() ==> wf_opt32(#[trigger] s[i]),
    ensures
        slots_bytes(s).len() == 32 * s.len(),
    decreases s.len(),
{
    if s.len() > 0 {
        lemma_slots_bytes_len(s.drop_last());
        lemma_opt_block32_round_trip(s.last());
    }
}

/// The block of slot `i` sits at offset `32 * i` of the concatenation.
pub proof fn lemma_slots_bytes_index(s: Seq<Option<Seq<u8>>>, i: int)
    requires
        forall|j: int| 0 <= j < s.len() ==> wf_opt32(#[trigger] s[j]),
        0 <= i < s.len(),
    ensures
        slots_bytes(s).subrange(32 * i, 32 * i + 32) == opt_block32(s[i]),
    decreases s.len(),
{
    lemma_slots_bytes_len(s);
    lemma_slots_bytes_len(s.drop_last());
    lemma_opt_block32_round_trip(s.last());
    if i == s.len() - 1 {
        assert(slots_bytes(s).subrange(32 * i, 32 * i + 32) =~= opt_block32(s[i]));
    } else {
        lemma_slots_bytes_index(s.drop_last(), i);
        assert(slots_bytes(s).subrange(32 * i, 32 * i + 32) =~= slots_bytes(
            s.drop_last(),
        ).subrange(32 * i, 32 * i + 32));
    }
}

/// The byte image of an index record: flag byte, chain pointer under a
/// zero sentinel, then the 128 slot blocks.
pub open spec fn spec_encode_index(v: IndexView) -> Seq<u8> {
    seq![init_byte(v.initialized)] + opt_block32(v.pointer) + slots_bytes(v.slots)
}

/// Reads an index record back from its byte image.
pub open spec fn spec_decode_index(b: Seq<u8>) -> Option<IndexView> {
    if b.len() != INDEX_LEN {
        None
    } else if b[0] != 0 && b[0] != 1 {
        None
    } else {
        Some(
            IndexView {
                initialized: b[0] == 1,
                pointer: decode_block32(b.subrange(1, 33)),
                slots: Seq::new(
                    INDEX_SLOTS as nat,
                    |i: int| decode_block32(b.subrange(33 + 32 * i, 65 + 32 * i)),
                ),
            },
        )
    }
}

/// Decoding an index record inverts encoding on every representable value.
pub proof fn lemma_index_round_trip(v: IndexView)
    requires
        v.wf(),
    ensures
        spec_encode_index(v).len() == INDEX_LEN,
        spec_decode_index(spec_encode_index(v)) == Some(v),
{
    lemma_opt_block32_round_trip(v.pointer);
    lemma_slots_bytes_len(v.slots);
    let e = spec_encode_index(v);
    assert(e.len() == INDEX_LEN);
    assert(e[0] == init_byte(v.initialized));
    assert(e.subrange(1, 33) =~= opt_block32(v.pointer));
    let d = spec_decode_index(e).unwrap();
    assert forall|i: int| 0 <= i < INDEX_SLOTS implies d.slots[i] == v.slots[i] by {
        lemma_slots_bytes_index(v.slots, i);
        lemma_opt_block32_round_trip(v.slots[i]);
        assert(e.subrange(33 + 32 * i, 65 + 32 * i) =~= slots_bytes(v.slots).subrange(
            32 * i,
            32 * i + 32,
        ));
    }
    assert(d.slots =~= v.slots);
}

/// Whatever a dataset record decodes to is representable: field widths
/// are fixed, and a decoded optional field is absent or a non-sentinel
/// value.
pub proof fn lemma_decode_state_wf(b: Seq<u8>)
    requires
        spec_decode_state(b) is Some,
    ensures
        spec_decode_state(b)->Some_0.wf(),
{
}

/// Whatever an access grant decodes to is representable.
pub proof fn lemma_decode_grant_wf(b: Seq<u8>)
    requires
        spec_decode_grant(b) is Some,
    ensures
        spec_decode_grant(b)->Some_0.wf(),
{
}

/// Whatever an index record decodes to is representable: every decoded
/// block is either absent or a non-zero 32-byte value.
pub proof fn lemma_decode_index_wf(b: Seq<u8>)
    requires
        spec_decode_index(b) is Some,
    ensures
        spec_decode_index(b)->Some_0.wf(),
{
    let v = spec_decode_index(b)->Some_0;
    assert forall|i: int| 0 <= i < v.slots.len() implies wf_opt32(#[trigger] v.slots[i]) by {
        assert(v.slots[i] == decode_block32(b.subrange(33 + 32 * i, 65 + 32 * i)));
    }
}

impl AccountIndex {
    /// Serializes the index to its fixed-length byte image.
    pub fn pack(&self) -> (r: Vec<u8>)
        requires
            self@.wf(),
        ensures
            r@ == spec_encode_index(self@),
    {
        let mut buf: Vec<u8> = Vec::new();
        buf.push(if self.is_initialized { 1 } else { 0 });
        match &self.pointer {
            Some(p) => push_bytes(&mut buf, p.as_slice()),
            None => push_zero32(&mut buf),
        }
        let ghost head = seq![init_byte(self@.initialized)] + opt_block32(self@.pointer);
        proof {
            assert(buf@ =~= head);
        }
        let n = self.datasets.len();
        let mut i: usize = 0;
        while i < n
            invariant
                i <= n,
                n == self.datasets@.len(),
                self@.slots.len() == n,
                buf@ == head + slots_bytes(self@.slots.take(i as int)),
            decreases n - i,
        {
            match &self.datasets[i] {
                Some(a) => push_bytes(&mut buf, a.as_slice()),
                None => push_zero32(&mut buf),
            }
            proof {
                assert(self@.slots.take(i + 1).drop_last() =~= self@.slots.take(i as int));
                assert(self@.slots.take(i + 1).last() == self@.slots[i as int]);
                assert(self@.slots[i as int] == opt_bytes_view(self.datasets@[i as int]));
                assert(buf@ =~= head + slots_bytes(self@.slots.take(i + 1)));
            }
            i += 1;
        }
        proof {
            assert(self@.slots.take(n as int) =~= self@.slots);
        }
        buf
    }

    /// Deserializes an index from a buffer, rejecting any buffer that is
    /// not a byte image of an index record.
    pub fn unpack_from_slice(src: &[u8]) -> (r: Result<AccountIndex, DataNexusError>)
        ensures
            match r {
                Ok(x) => spec_decode_index(src@) == Some(x@),
                Err(e) => spec_decode_index(src@) is None && e
                    == DataNexusError::InvalidAccountData,
            },
    {
        if src.len() != INDEX_LEN {
            return Err(DataNexusError::InvalidAccountData);
        }
        let b0 = src[0];
        if b0 != 0 && b0 != 1 {
            return Err(DataNexusError::InvalidAccountData);
        }
        let pb = read_block32(src, 1);
        let pointer = if block_is_zero(&pb) {
            None
        } else {
            Some(pb)
        };
        let mut datasets: Vec<Option<Vec<u8>>> = Vec::new();
        let mut i: usize = 0;
        while i < INDEX_SLOTS
            invariant
                i <= INDEX_SLOTS,
                src@.len() == INDEX_LEN,
                datasets@.len() == i,
                forall|j: int|
                    0 <= j < i ==> opt_bytes_view(#[trigger] datasets@[j]) == decode_block32(
                        src@.subrange(33 + 32 * j, 65 + 32 * j),
                    ),
            decreases INDEX_SLOTS - i,
        {
            let blk = read_block32(src, 33 + 32 * i);
            let slot = if block_is_zero(&blk) {
                None
            } else {
                Some(blk)
            };
            datasets.push(slot);
            i += 1;
        }
        let x = AccountIndex { is_initialized: b0 == 1, pointer, datasets };
        proof {
            assert(x@.slots =~= spec_decode_index(src@).unwrap().slots);
        }
        Ok(x)
    }
}

} // verus!
